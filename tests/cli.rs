use clap::{Arg, ArgAction, Command};
use witmotion_modbus::address::parse_address;
use witmotion_modbus::DEFAULT_POLL_INTERVAL_MS;

fn reader_command() -> Command {
    Command::new("test-reader")
        .arg(Arg::new("device").short('d').long("device").required(true))
        .arg(
            Arg::new("address")
                .short('a')
                .long("address")
                .default_value("255")
                .value_parser(parse_address),
        )
        .arg(
            Arg::new("interval")
                .short('i')
                .long("interval")
                .default_value("500")
                .value_parser(|s: &str| s.parse::<u64>()),
        )
        .arg(Arg::new("verbose").short('v').long("verbose").action(ArgAction::SetTrue))
}

#[test]
fn test_args_parsing() {
    let args = reader_command()
        .try_get_matches_from(["test-reader", "--device", "/dev/ttyUSB0"])
        .unwrap();
    assert_eq!(args.get_one::<String>("device").unwrap(), "/dev/ttyUSB0");
    assert_eq!(*args.get_one::<u8>("address").unwrap(), 255);
    assert_eq!(*args.get_one::<u64>("interval").unwrap(), DEFAULT_POLL_INTERVAL_MS);
}

#[test]
fn test_args_with_options() {
    let args = reader_command()
        .try_get_matches_from([
            "test-reader",
            "--device",
            "/dev/ttyUSB0",
            "--address",
            "50",
            "--interval",
            "1000",
            "--verbose",
        ])
        .unwrap();
    assert_eq!(args.get_one::<String>("device").unwrap(), "/dev/ttyUSB0");
    assert_eq!(*args.get_one::<u8>("address").unwrap(), 50);
    assert_eq!(*args.get_one::<u64>("interval").unwrap(), 1000);
    assert_eq!(args.get_flag("verbose"), true);
}

#[test]
fn address_accepts_hex_and_decimal() {
    assert_eq!(parse_address("0x50"), Ok(0x50));
    assert_eq!(parse_address("0XfF"), Ok(255));
    assert_eq!(parse_address("80"), Ok(80));
    assert_eq!(parse_address("+7"), Ok(7));
    assert_eq!(parse_address("007"), Ok(7));
}

#[test]
fn address_rejects_bad_text() {
    assert_eq!(parse_address("256"), Err("Invalid decimal address: 256".to_string()));
    assert_eq!(parse_address(""), Err("Invalid decimal address: ".to_string()));
    assert_eq!(parse_address("-1"), Err("Invalid decimal address: -1".to_string()));
    assert_eq!(parse_address("12a"), Err("Invalid decimal address: 12a".to_string()));
    assert_eq!(parse_address("0x"), Err("Invalid hex address: 0x".to_string()));
    assert_eq!(parse_address("0x100"), Err("Invalid hex address: 0x100".to_string()));
    assert_eq!(parse_address("0xg1"), Err("Invalid hex address: 0xg1".to_string()));
}
