use slv_rust::template_parser::{parse, Cardinality, Encoding, Frequency, TrustLevel};

#[test]
fn test_parse_simple_message() {
    let input = r#"
{
    TestMessage Low 1 NotTrusted Zerocoded
    {
        TestBlock1 Single
        {   Test1   U32 }
    }
}
"#;

    let result = parse(input).unwrap();
    assert_eq!(result.messages.len(), 1);

    let message = &result.messages[0];
    assert_eq!(message.name, "TestMessage");
    assert_eq!(message.frequency, Frequency::Low);
    assert_eq!(message.id, 1);
    assert_eq!(message.trust, TrustLevel::NotTrusted);
    assert_eq!(message.encoding, Encoding::Zerocoded);
    assert_eq!(message.flags, Vec::<String>::new());
    assert_eq!(message.blocks.len(), 1);

    let block = &message.blocks[0];
    assert_eq!(block.name, "TestBlock1");
    assert_eq!(block.cardinality, Cardinality::Single);
    assert_eq!(block.count, None);
    assert_eq!(block.fields.len(), 1);

    let field = &block.fields[0];
    assert_eq!(field.name, "Test1");
    assert_eq!(field.field_type, "U32");
}

#[test]
fn test_parse_hex_message_id() {
    let input = r#"
{
    PacketAck Fixed 0xFFFFFFFB NotTrusted Unencoded
    {
        Packets Variable
        {   ID  U32 }
    }
}
"#;

    let result = parse(input).unwrap();
    assert_eq!(result.messages.len(), 1);

    let message = &result.messages[0];
    assert_eq!(message.name, "PacketAck");
    assert_eq!(message.frequency, Frequency::Fixed);
    assert_eq!(message.id, 0xFFFFFFFB);
    assert_eq!(message.flags, Vec::<String>::new());
}

#[test]
fn test_parse_multiple_cardinality() {
    let input = r#"
{
    TestMessage Low 1 NotTrusted Zerocoded
    {
        NeighborBlock Multiple 4
        {   Test0   U32 }
        {   Test1   U32 }
    }
}
"#;

    let result = parse(input).unwrap();
    let block = &result.messages[0].blocks[0];
    assert_eq!(block.cardinality, Cardinality::Multiple);
    assert_eq!(block.count, Some(4));
    assert_eq!(block.fields.len(), 2);
}

#[test]
fn test_parse_error_invalid_frequency() {
    let input = r#"
{
    TestMessage InvalidFreq 1 NotTrusted Zerocoded
    {
        TestBlock1 Single
        {   Test1   U32 }
    }
}
"#;

    let result = parse(input);
    assert!(result.is_err());
    assert!(result.unwrap_err().contains("Unknown frequency"));
}

#[test]
fn test_parse_message_with_flags() {
    let input = r#"
{
    OpenCircuit Fixed 0xFFFFFFFC NotTrusted Unencoded UDPBlackListed
    {
        CircuitInfo Single
        {   IP      IPADDR  }
        {   Port    IPPORT  }
    }
}
"#;

    let result = parse(input).unwrap();
    let message = &result.messages[0];
    assert_eq!(message.name, "OpenCircuit");
    assert_eq!(message.frequency, Frequency::Fixed);
    assert_eq!(message.id, 0xFFFFFFFC);
    assert_eq!(message.trust, TrustLevel::NotTrusted);
    assert_eq!(message.encoding, Encoding::Unencoded);
    assert_eq!(message.flags, vec!["UDPBlackListed".to_string()]);
}

#[test]
fn test_parse_comments_ignored() {
    let input = r#"
// This is a comment
version 2.0
// Another comment

{
    TestMessage Low 1 NotTrusted Zerocoded
    {
        TestBlock1 Single
        {   Test1   U32 }
    }
}
"#;

    let result = parse(input).unwrap();
    assert_eq!(result.messages.len(), 1);
}

#[test]
fn parse_empty_input_gives_no_messages() {
    let result = parse("").unwrap();
    assert_eq!(result.messages.len(), 0);
}

#[test]
fn parse_decimal_and_hex_ids_agree() {
    let a = parse("{\n M Fixed 0xFFFFFFFB NotTrusted Unencoded\n}\n").unwrap();
    let b = parse("{\n M Fixed 4294967291 NotTrusted Unencoded\n}\n").unwrap();
    assert_eq!(a.messages[0].id, b.messages[0].id);
}

#[test]
fn names_parse_through_from_str() {
    assert_eq!("High".parse::<Frequency>(), Ok(Frequency::High));
    assert_eq!("Trusted".parse::<TrustLevel>(), Ok(TrustLevel::Trusted));
    assert_eq!("Zerocoded".parse::<Encoding>(), Ok(Encoding::Zerocoded));
    assert_eq!("Variable".parse::<Cardinality>(), Ok(Cardinality::Variable));
    assert_eq!("Often".parse::<Frequency>(), Err("Unknown frequency: Often".to_string()));
}
