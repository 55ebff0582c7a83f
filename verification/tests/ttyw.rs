use toolbox::ttyw::frontend::asset_path;
use toolbox::ttyw::message::ReceiveMsg;
use toolbox::ttyw::session::{
    after_read, on_incoming, on_message, Incoming, ReaderStep, SessionAction, TermSize,
    TerminalAction,
};

#[test]
fn parse_plain_text_as_input() {
    let msg = "hello";
    let parsed = ReceiveMsg::plain_input(msg).unwrap();
    let ReceiveMsg::Input { data } = parsed else {
        panic!("expected Input")
    };
    assert_eq!(data, "hello");
}

#[test]
fn parse_input_preserves_data() {
    let msg = "ls -la\n";
    let parsed = ReceiveMsg::plain_input(msg).unwrap();
    let ReceiveMsg::Input { data } = parsed else {
        panic!("expected Input")
    };
    assert_eq!(data, "ls -la\n");
}

#[test]
fn parse_input_special_chars() {
    let msg = "\x03";
    let parsed = ReceiveMsg::plain_input(msg).unwrap();
    let ReceiveMsg::Input { data } = parsed else {
        panic!("expected Input")
    };
    assert_eq!(data, "\x03");
}

#[test]
fn parse_input_empty_string() {
    let msg = "";
    let parsed = ReceiveMsg::plain_input(msg).unwrap();
    let ReceiveMsg::Input { data } = parsed else {
        panic!("expected Input")
    };
    assert_eq!(data, "");
}

#[test]
fn json_values_of_any_kind_go_to_the_decoder() {
    for msg in ["123", "null", "[1]", "\"hi\"", " true "] {
        assert_eq!(ReceiveMsg::plain_input(msg), None, "{msg:?}");
    }
    assert_eq!(
        ReceiveMsg::plain_input("truest"),
        Some(ReceiveMsg::Input { data: "truest".to_string() })
    );
}

#[test]
fn input_unless_json_follows_the_json_answer() {
    assert_eq!(ReceiveMsg::input_unless_json("123", true), None);
    assert_eq!(
        ReceiveMsg::input_unless_json("123", false),
        Some(ReceiveMsg::Input { data: "123".to_string() })
    );
    assert_eq!(ReceiveMsg::input_unless_json(" {", false), None);
}

#[test]
fn json_documents_are_left_to_the_decoder() {
    assert_eq!(ReceiveMsg::plain_input(r#"{"kind":"resize","cols":120,"rows":40}"#), None);
    assert_eq!(ReceiveMsg::plain_input("{"), None);
    assert_eq!(ReceiveMsg::plain_input(" {}"), None);
    assert_eq!(ReceiveMsg::plain_input("\r\n\t {\"kind\":\"input\"}"), None);
    assert_eq!(
        ReceiveMsg::plain_input(" x{}"),
        Some(ReceiveMsg::Input { data: " x{}".to_string() })
    );
    assert_eq!(
        ReceiveMsg::plain_input("  \n"),
        Some(ReceiveMsg::Input { data: "  \n".to_string() })
    );
}

#[test]
fn session_acts_on_text_only() {
    assert_eq!(on_incoming(Incoming::Text("ls".to_string())), SessionAction::Decode("ls".to_string()));
    assert_eq!(on_incoming(Incoming::Other), SessionAction::Skip);
    assert_eq!(on_incoming(Incoming::Closed), SessionAction::Finish);
}

#[test]
fn session_message_actions() {
    assert_eq!(
        on_message(Some(ReceiveMsg::Resize { cols: 120, rows: 40 })),
        TerminalAction::Resize(TermSize { rows: 40, cols: 120, pixel_width: 0, pixel_height: 0 })
    );
    assert_eq!(
        on_message(Some(ReceiveMsg::Input { data: "ls -la\n".to_string() })),
        TerminalAction::Write("ls -la\n".to_string())
    );
    assert_eq!(on_message(None), TerminalAction::Warn);
}

#[test]
fn reader_stops_at_end_or_error() {
    assert_eq!(after_read(Some(5)), ReaderStep::Forward(5));
    assert_eq!(after_read(Some(0)), ReaderStep::Stop);
    assert_eq!(after_read(None), ReaderStep::Stop);
}

#[test]
fn asset_paths() {
    assert_eq!(asset_path("/"), "index.html");
    assert_eq!(asset_path(""), "index.html");
    assert_eq!(asset_path("///"), "index.html");
    assert_eq!(asset_path("/assets/app.js"), "assets/app.js");
    assert_eq!(asset_path("//x/y"), "x/y");
    assert_eq!(asset_path("favicon.ico"), "favicon.ico");
}
