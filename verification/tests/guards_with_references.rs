//! Guards over inputs that carry references.

use fsm_dsl::machine::{state_machine, CompiledMachine, StateMachine, TransitionImpossibleError};
use fsm_dsl::parser::{GuardExpr, OutputSpec};

/// A text without its white space.
fn squeezed(text: &str) -> String {
    text.chars().filter(|c| !c.is_whitespace()).collect()
}

/// The source of a guard: the predicate of an `if`, the pattern of an arm.
fn source(guard: &GuardExpr) -> String {
    match guard {
        GuardExpr::Closure(expr) => squeezed(expr),
        GuardExpr::Matches { pattern, .. } => squeezed(pattern),
    }
}

/// A machine under test.
struct Run {
    machine: CompiledMachine,
    current: StateMachine,
}

impl Run {
    fn new(text: &str) -> Run {
        let machine = state_machine(text).unwrap();
        let current = StateMachine::new(&machine);
        Run { machine, current }
    }

    /// Takes an input; `holds` says of each guard, by its source, whether it
    /// holds of the input.
    fn consume(
        &mut self,
        input: &str,
        holds: &dyn Fn(&str) -> bool,
    ) -> Result<Option<OutputSpec>, TransitionImpossibleError> {
        let guards: Vec<bool> = self
            .machine
            .cases
            .iter()
            .map(|case| match &case.guard_expr {
                Some(guard) if case.input.name == input && !guard.always_holds() => {
                    holds(&source(guard))
                }
                _ => false,
            })
            .collect();
        self.current.consume(&self.machine, input, &guards)
    }

    fn state(&self) -> &str {
        self.current.state()
    }
}

fn constant(name: &str) -> Result<Option<OutputSpec>, TransitionImpossibleError> {
    Ok(Some(OutputSpec::Constant(name.to_string())))
}

fn no_guard(source: &str) -> bool {
    panic!("unexpected guard {source}")
}

const STRING_PARSER: &str = r#"
    #[derive(Debug, PartialEq, Eq)]
    #[allow(unused)]
    string_parser(Idle)

    Idle => {
        Parse(&'static str) match text {
            "start" => Running,
            "stop" => Stopped,
            _ => Idle [UnknownCommand]
        }
    },
    Running => {
        Parse(&'static str) if |text: &str| text.starts_with("cmd:") => Running [CommandReceived],
        Parse(&'static str) if |text: &str| text == "stop" => Stopped
    },
    Stopped(Reset) => Idle
"#;

fn parse(run: &mut Run, text: &'static str) -> Result<Option<OutputSpec>, TransitionImpossibleError> {
    run.consume("Parse", &|guard| match guard {
        "\"start\"" => matches!(text, "start"),
        "\"stop\"" => matches!(text, "stop"),
        "|text:&str|text.starts_with(\"cmd:\")" => (|text: &str| text.starts_with("cmd:"))(text),
        "|text:&str|text==\"stop\"" => (|text: &str| text == "stop")(text),
        other => no_guard(other),
    })
}

#[test]
fn test_str_reference_with_match_guard() {
    let mut machine = Run::new(STRING_PARSER);

    // Test "start" command
    let res = parse(&mut machine, "start");
    assert!(res.is_ok());
    assert_eq!(machine.state(), "Running");

    // Reset for next test
    let mut machine = Run::new(STRING_PARSER);

    // Test "stop" command
    let res = parse(&mut machine, "stop");
    assert!(res.is_ok());
    assert_eq!(machine.state(), "Stopped");

    // Reset for next test
    let mut machine = Run::new(STRING_PARSER);

    // Test unknown command
    let res = parse(&mut machine, "unknown");
    assert!(res.is_ok());
    assert_eq!(machine.state(), "Idle");
    assert_eq!(res, constant("UnknownCommand"));
}

#[test]
fn test_str_reference_with_closure_guard() {
    let mut machine = Run::new(STRING_PARSER);

    // Start the machine
    parse(&mut machine, "start").unwrap();
    assert_eq!(machine.state(), "Running");

    // Test command prefix matching
    let res = parse(&mut machine, "cmd:hello");
    assert!(res.is_ok());
    assert_eq!(machine.state(), "Running");
    assert_eq!(res, constant("CommandReceived"));

    // Test stop command
    let res = parse(&mut machine, "stop");
    assert!(res.is_ok());
    assert_eq!(machine.state(), "Stopped");
}

const BYTE_PROCESSOR: &str = r#"
    #[derive(Debug, PartialEq, Eq)]
    #[allow(unused)]
    byte_processor(Ready)

    Ready => {
        Process(&'static [u8]) if |data: &[u8]| !data.is_empty() => Processing,
        Process(&'static [u8]) if |data: &[u8]| data.is_empty() => Ready [EmptyData]
    },
    Processing(Done) => Ready
"#;

#[test]
fn test_slice_reference_guard() {
    let mut machine = Run::new(BYTE_PROCESSOR);
    let process = |machine: &mut Run, data: &'static [u8]| {
        machine.consume("Process", &|guard| match guard {
            "|data:&[u8]|!data.is_empty()" => (|data: &[u8]| !data.is_empty())(data),
            "|data:&[u8]|data.is_empty()" => (|data: &[u8]| data.is_empty())(data),
            other => no_guard(other),
        })
    };

    // Test with non-empty data
    let res = process(&mut machine, &[1, 2, 3]);
    assert!(res.is_ok());
    assert_eq!(machine.state(), "Processing");

    // Complete processing
    machine.consume("Done", &no_guard).unwrap();
    assert_eq!(machine.state(), "Ready");

    // Test with empty data
    let res = process(&mut machine, &[]);
    assert!(res.is_ok());
    assert_eq!(machine.state(), "Ready");
    assert_eq!(res, constant("EmptyData"));
}

const MIXED_TYPES: &str = r#"
    #[derive(Debug, PartialEq, Eq)]
    #[allow(unused)]
    mixed_types(Init)

    Init => {
        Data(&'static str, u32) match (name, value) {
            ("admin", 0..) => AdminMode,
            (_, 100..) => HighValue,
            (_, _) => LowValue
        }
    },
    AdminMode(Exit) => Init,
    HighValue(Exit) => Init,
    LowValue(Exit) => Init
"#;

#[test]
fn test_mixed_reference_and_value_types() {
    let data = |machine: &mut Run, name: &'static str, value: u32| {
        machine.consume("Data", &|guard| match guard {
            "(\"admin\",0..)" => matches!((name, value), ("admin", 0..)),
            "(_,100..)" => matches!((name, value), (_, 100..)),
            other => no_guard(other),
        })
    };
    let mut machine = Run::new(MIXED_TYPES);

    // Test admin mode
    let res = data(&mut machine, "admin", 50);
    assert!(res.is_ok());
    assert_eq!(machine.state(), "AdminMode");

    // Reset
    let mut machine = Run::new(MIXED_TYPES);

    // Test high value (non-admin)
    let res = data(&mut machine, "user", 200);
    assert!(res.is_ok());
    assert_eq!(machine.state(), "HighValue");

    // Reset
    let mut machine = Run::new(MIXED_TYPES);

    // Test low value
    let res = data(&mut machine, "guest", 50);
    assert!(res.is_ok());
    assert_eq!(machine.state(), "LowValue");
}

const ECHO_MACHINE: &str = r#"
    #[derive(Debug, PartialEq)]
    #[allow(unused)]
    #[state_machine(output(EchoOutput))]
    echo_machine(Listening)

    use super::EchoOutput;

    Listening => {
        Message(&'static str) => Listening [|msg: &str| EchoOutput::Echo(msg.len())]
    }
"#;

#[derive(Debug, PartialEq)]
pub enum EchoOutput {
    Echo(usize),
}

/// What the machine puts out, with computed outputs carried out.
fn echoed(
    res: Result<Option<OutputSpec>, TransitionImpossibleError>,
    msg: &str,
) -> Result<Option<EchoOutput>, TransitionImpossibleError> {
    res.map(|output| {
        output.map(|spec| match spec {
            OutputSpec::Call(expr) if squeezed(&expr) == "|msg:&str|EchoOutput::Echo(msg.len())" => {
                (|msg: &str| EchoOutput::Echo(msg.len()))(msg)
            }
            other => panic!("unexpected output {other:?}"),
        })
    })
}

#[test]
fn test_output_with_reference_type() {
    let mut machine = Run::new(ECHO_MACHINE);
    // The output type comes from outside: no output alphabet is derived.
    assert_eq!(machine.machine.outputs, None);

    // Test message echo with length
    let res = echoed(machine.consume("Message", &no_guard), "hello");
    assert!(res.is_ok());
    assert_eq!(machine.state(), "Listening");
    assert_eq!(res, Ok(Some(EchoOutput::Echo(5))));

    // Test with longer message
    let res = echoed(machine.consume("Message", &no_guard), "hello world");
    assert!(res.is_ok());
    assert_eq!(res, Ok(Some(EchoOutput::Echo(11))));
}

const COMMAND_PROCESSOR: &str = r#"
    #[derive(Debug, PartialEq, Eq)]
    #[allow(unused)]
    command_processor(Idle)

    Idle => {
        Command(&'static str, u32) if |cmd: &str, priority: &u32| cmd == "urgent" && *priority > 5 => UrgentProcessing,
        Command(&'static str, u32) if |cmd: &str, _: &u32| cmd == "normal" => NormalProcessing,
        Command(&'static str, u32) => Idle [InvalidCommand]
    },
    UrgentProcessing(Complete) => Idle,
    NormalProcessing(Complete) => Idle
"#;

#[test]
fn test_multiple_ref_params_in_closure_guard() {
    let command = |machine: &mut Run, cmd: &'static str, priority: u32| {
        machine.consume("Command", &|guard| match guard {
            "|cmd:&str,priority:&u32|cmd==\"urgent\"&&*priority>5" => {
                (|cmd: &str, priority: &u32| cmd == "urgent" && *priority > 5)(cmd, &priority)
            }
            "|cmd:&str,_:&u32|cmd==\"normal\"" => (|cmd: &str, _: &u32| cmd == "normal")(cmd, &priority),
            other => no_guard(other),
        })
    };
    let mut machine = Run::new(COMMAND_PROCESSOR);

    // Test urgent high priority
    let res = command(&mut machine, "urgent", 10);
    assert!(res.is_ok());
    assert_eq!(machine.state(), "UrgentProcessing");

    // Reset
    machine.consume("Complete", &no_guard).unwrap();

    // Test urgent low priority (should fail guard, try next)
    let res = command(&mut machine, "urgent", 3);
    assert!(res.is_ok());
    // Falls through to invalid since no "normal" match
    assert_eq!(machine.state(), "Idle");
    assert_eq!(res, constant("InvalidCommand"));

    // Test normal command
    let res = command(&mut machine, "normal", 1);
    assert!(res.is_ok());
    assert_eq!(machine.state(), "NormalProcessing");
}

const BUFFER_PROCESSOR: &str = r#"
    #[derive(Debug, PartialEq, Eq)]
    #[allow(unused)]
    #[state_machine(input(BufferInput<'__input_lifetime>))]
    buffer_processor(Idle)

    use super::BufferInput;

    Idle => {
        Process(&'a [u8]) if |data: &[u8]| data.len() >= 4 => Processing,
        Process(&'a [u8]) if |data: &[u8]| data.len() < 4 => Idle [BufferTooSmall],
        Validate(&'a str) if |s: &str| !s.is_empty() => Validating
    },
    Processing(Flush) => Idle,
    Validating(Flush) => Idle
"#;

fn buffer_guard(guard: &str, data: &[u8], s: &str) -> bool {
    match guard {
        "|data:&[u8]|data.len()>=4" => (|data: &[u8]| data.len() >= 4)(data),
        "|data:&[u8]|data.len()<4" => (|data: &[u8]| data.len() < 4)(data),
        "|s:&str|!s.is_empty()" => (|s: &str| !s.is_empty())(s),
        other => no_guard(other),
    }
}

#[test]
fn test_non_static_reference_with_guard() {
    let mut machine = Run::new(BUFFER_PROCESSOR);
    // The input type comes from outside: no input alphabet is derived.
    assert_eq!(machine.machine.inputs, None);

    // Create a local buffer (non-static lifetime!)
    let local_buffer: Vec<u8> = vec![1, 2, 3, 4, 5];

    // Process with sufficient data
    let res = machine.consume("Process", &|guard| buffer_guard(guard, &local_buffer, ""));
    assert!(res.is_ok());
    assert_eq!(machine.state(), "Processing");

    // Flush and reset
    machine.consume("Flush", &no_guard).unwrap();
    assert_eq!(machine.state(), "Idle");

    // Process with insufficient data
    let small_buffer: [u8; 2] = [1, 2];
    let res = machine.consume("Process", &|guard| buffer_guard(guard, &small_buffer, ""));
    assert!(res.is_ok());
    assert_eq!(machine.state(), "Idle");
    assert_eq!(res, constant("BufferTooSmall"));
}

#[test]
fn test_non_static_str_reference() {
    let mut machine = Run::new(BUFFER_PROCESSOR);

    // Create a local string (non-static lifetime!)
    let local_string = String::from("hello world");

    // Validate with non-empty string
    let res = machine.consume("Validate", &|guard| buffer_guard(guard, &[], &local_string));
    assert!(res.is_ok());
    assert_eq!(machine.state(), "Validating");
}

const PROTOCOL_PARSER: &str = r#"
    #[derive(Debug, PartialEq, Eq)]
    #[allow(unused)]
    #[state_machine(input(ProtocolInput<'__input_lifetime>))]
    protocol_parser(WaitingHeader)

    use super::ProtocolInput;

    WaitingHeader => {
        Header(&'a [u8]) if |h: &[u8]| h.len() >= 4 && h[0] == 0xAA => WaitingBody,
        Header(&'a [u8]) => WaitingHeader [InvalidHeader]
    },
    WaitingBody => {
        Body(&'a [u8]) if |b: &[u8]| !b.is_empty() => Complete,
        Body(&'a [u8]) => WaitingBody [EmptyBody]
    },
    Complete(Complete) => WaitingHeader
"#;

fn protocol_guard(guard: &str, bytes: &[u8]) -> bool {
    match guard {
        "|h:&[u8]|h.len()>=4&&h[0]==0xAA" => (|h: &[u8]| h.len() >= 4 && h[0] == 0xAA)(bytes),
        "|b:&[u8]|!b.is_empty()" => (|b: &[u8]| !b.is_empty())(bytes),
        other => no_guard(other),
    }
}

#[test]
fn test_protocol_parser_with_non_static_refs() {
    let mut machine = Run::new(PROTOCOL_PARSER);

    // Create local buffers (non-static)
    let header = vec![0xAA, 0x01, 0x02, 0x03];
    let body = vec![0x10, 0x20, 0x30];

    // Parse header
    let res = machine.consume("Header", &|guard| protocol_guard(guard, &header));
    assert!(res.is_ok());
    assert_eq!(machine.state(), "WaitingBody");

    // Parse body
    let res = machine.consume("Body", &|guard| protocol_guard(guard, &body));
    assert!(res.is_ok());
    assert_eq!(machine.state(), "Complete");

    // Complete and reset
    machine.consume("Complete", &no_guard).unwrap();
    assert_eq!(machine.state(), "WaitingHeader");
}

#[test]
fn test_protocol_parser_invalid_header() {
    let mut machine = Run::new(PROTOCOL_PARSER);

    // Invalid header (wrong magic byte)
    let bad_header = vec![0xBB, 0x01, 0x02, 0x03];
    let res = machine.consume("Header", &|guard| protocol_guard(guard, &bad_header));
    assert!(res.is_ok());
    assert_eq!(machine.state(), "WaitingHeader");
    assert_eq!(res, constant("InvalidHeader"));

    // Too short header
    let short_header = vec![0xAA, 0x01];
    let res = machine.consume("Header", &|guard| protocol_guard(guard, &short_header));
    assert!(res.is_ok());
    assert_eq!(machine.state(), "WaitingHeader");
    assert_eq!(res, constant("InvalidHeader"));
}

const CONFIG_PARSER: &str = r#"
    #[derive(Debug, PartialEq, Eq)]
    #[allow(unused)]
    config_parser(Initial)

    Initial => {
        // Multiple reference fields with match guards
        Configure(&'static str, &'static [u8]) match (key, data) {
            ("debug", [1, ..]) => DebugMode,
            ("debug", _) => Initial [InvalidDebugConfig],
            (_, _) => Initial [UnknownConfig]
        },
        // Use closure guard for more complex conditions
        ConfigureProd(&'static [u8]) if |data: &[u8]| data.len() >= 4 => ProductionMode,
        ConfigureProd(&'static [u8]) => Initial [ProdConfigTooSmall]
    },
    DebugMode(Reset) => Initial,
    ProductionMode(Reset) => Initial
"#;

#[test]
fn test_multiple_static_references_in_match() {
    let configure = |machine: &mut Run, key: &'static str, data: &'static [u8]| {
        machine.consume("Configure", &|guard| match guard {
            "(\"debug\",[1,..])" => matches!((key, data), ("debug", [1, ..])),
            "(\"debug\",_)" => matches!((key, data), ("debug", _)),
            other => no_guard(other),
        })
    };
    let configure_prod = |machine: &mut Run, data: &'static [u8]| {
        machine.consume("ConfigureProd", &|guard| match guard {
            "|data:&[u8]|data.len()>=4" => (|data: &[u8]| data.len() >= 4)(data),
            other => no_guard(other),
        })
    };
    let mut machine = Run::new(CONFIG_PARSER);

    // Test debug mode with valid config
    let res = configure(&mut machine, "debug", &[1, 2, 3]);
    assert!(res.is_ok());
    assert_eq!(machine.state(), "DebugMode");

    // Reset
    machine.consume("Reset", &no_guard).unwrap();

    // Test debug mode with invalid config (first byte not 1)
    let res = configure(&mut machine, "debug", &[0, 2, 3]);
    assert!(res.is_ok());
    assert_eq!(machine.state(), "Initial");
    assert_eq!(res, constant("InvalidDebugConfig"));

    // Test production mode with sufficient data using closure guard
    let res = configure_prod(&mut machine, &[1, 2, 3, 4]);
    assert!(res.is_ok());
    assert_eq!(machine.state(), "ProductionMode");

    // Reset
    machine.consume("Reset", &no_guard).unwrap();

    // Test production mode with insufficient data
    let res = configure_prod(&mut machine, &[1, 2]);
    assert!(res.is_ok());
    assert_eq!(machine.state(), "Initial");
    assert_eq!(res, constant("ProdConfigTooSmall"));

    // Test unknown key
    let res = configure(&mut machine, "unknown", &[]);
    assert!(res.is_ok());
    assert_eq!(machine.state(), "Initial");
    assert_eq!(res, constant("UnknownConfig"));
}

const PROTOCOL_HANDLER: &str = r#"
    #[derive(Debug, PartialEq, Eq)]
    #[allow(unused)]
    protocol_handler(Disconnected)

    Disconnected => {
        Connect(&'static str, u16) if |host: &str, port: &u16| {
            host.starts_with("secure.") && *port == 443
        } => SecureConnected,
        Connect(&'static str, u16) if |host: &str, port: &u16| {
            !host.is_empty() && *port > 0
        } => Connected,
        Connect(&'static str, u16) => Disconnected [InvalidConnection]
    },
    Connected(Disconnect) => Disconnected,
    SecureConnected(Disconnect) => Disconnected
"#;

#[test]
fn test_closure_guards_with_static_str_and_value() {
    let connect = |machine: &mut Run, host: &'static str, port: u16| {
        machine.consume("Connect", &|guard| match guard {
            "|host:&str,port:&u16|{host.starts_with(\"secure.\")&&*port==443}" => {
                (|host: &str, port: &u16| host.starts_with("secure.") && *port == 443)(host, &port)
            }
            "|host:&str,port:&u16|{!host.is_empty()&&*port>0}" => {
                (|host: &str, port: &u16| !host.is_empty() && *port > 0)(host, &port)
            }
            other => no_guard(other),
        })
    };
    let mut machine = Run::new(PROTOCOL_HANDLER);

    // Test secure connection
    let res = connect(&mut machine, "secure.example.com", 443);
    assert!(res.is_ok());
    assert_eq!(machine.state(), "SecureConnected");

    // Reset
    machine.consume("Disconnect", &no_guard).unwrap();

    // Test regular connection
    let res = connect(&mut machine, "example.com", 8080);
    assert!(res.is_ok());
    assert_eq!(machine.state(), "Connected");

    // Reset
    machine.consume("Disconnect", &no_guard).unwrap();

    // Test invalid connection (empty host)
    let res = connect(&mut machine, "", 80);
    assert!(res.is_ok());
    assert_eq!(machine.state(), "Disconnected");
    assert_eq!(res, constant("InvalidConnection"));

    // Test invalid connection (port 0)
    let res = connect(&mut machine, "example.com", 0);
    assert!(res.is_ok());
    assert_eq!(machine.state(), "Disconnected");
    assert_eq!(res, constant("InvalidConnection"));
}
