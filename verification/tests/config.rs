use multi_config::document::Node;
use multi_config::dto::TEdgeConfigDto;
use multi_config::error::{ConfigError, ScalarType};
use multi_config::key::{ReadableKey, WritableKey};
use multi_config::multi::Multi;
use multi_config::reader::TEdgeConfigReader;
use std::borrow::Cow;

fn node_of(value: &toml::Value) -> Node {
    match value {
        toml::Value::String(text) => Node::Text(text.clone()),
        toml::Value::Integer(i) => Node::Integer(*i),
        toml::Value::Table(table) => table_of(table),
        _ => Node::Other,
    }
}

fn table_of(table: &toml::Table) -> Node {
    Node::Table(
        table
            .iter()
            .map(|(name, value)| (name.clone(), node_of(value)))
            .collect(),
    )
}

fn parse(text: &str) -> Result<TEdgeConfigDto, ConfigError> {
    let table: toml::Table = toml::from_str(text).unwrap();
    TEdgeConfigDto::from_document(&table_of(&table))
}

fn read<'a>(rdr: &'a TEdgeConfigReader, key: &'static str) -> Cow<'a, str> {
    let key: ReadableKey = key.parse().unwrap();
    rdr.try_read_str(&key).unwrap()
}

#[test]
fn parse_readable_key() {
    assert_eq!(
        "device.type".parse::<ReadableKey>().unwrap(),
        ReadableKey::DeviceTy
    );
    assert_eq!(
        "c8y.url".parse::<ReadableKey>().unwrap(),
        ReadableKey::C8yUrl(None)
    );
    assert_eq!(
        "c8y.cloud.url".parse::<ReadableKey>().unwrap(),
        ReadableKey::C8yUrl(Some("cloud".into()))
    );
}

#[test]
fn parse_writable_key() {
    assert_eq!(
        "device.type".parse::<WritableKey>().unwrap(),
        WritableKey::DeviceTy
    );
    assert_eq!(
        "c8y.url".parse::<WritableKey>().unwrap(),
        WritableKey::C8yUrl(None)
    );
    assert_eq!(
        "c8y.cloud.url".parse::<WritableKey>().unwrap(),
        WritableKey::C8yUrl(Some("cloud".into()))
    );
}

#[test]
fn parse_dto_simple() {
    let toml = "c8y.url = \"https://c8y.example.com\"";
    let dto = parse(toml).unwrap();
    let rdr = TEdgeConfigReader::from(dto);
    assert_eq!(read(&rdr, "c8y.url"), "https://c8y.example.com");
    assert_eq!(read(&rdr, "device.type"), "thin-edge.io");
}

#[test]
fn parse_dto_multi() {
    let toml = "c8y.cloud.url = \"https://c8y.example.com\"";
    let dto = parse(toml).unwrap();
    let rdr = TEdgeConfigReader::from(dto);
    assert_eq!(
        rdr.try_read_str(&ReadableKey::C8yUrl(Some("cloud".into())))
            .unwrap(),
        "https://c8y.example.com"
    );
    assert_eq!(
        rdr.try_read_str(&ReadableKey::C8yUrl(None)),
        Err(ConfigError::NotConfigured("c8y.url".to_owned()))
    );
}

#[test]
fn update_dto_simple() {
    let toml = "c8y.url = \"https://c8y.example.com\"";
    let mut dto = parse(toml).unwrap();

    let key = "c8y.url".parse().unwrap();
    dto.try_update_str(&key, "https://new.example.com").unwrap();
    let rdr = TEdgeConfigReader::from(dto);
    assert_eq!(read(&rdr, "c8y.url"), "https://new.example.com");
}

#[test]
fn update_dto_multi() {
    let toml = "c8y.cloud.url = \"https://c8y.example.com\"";
    let mut dto = parse(toml).unwrap();

    let key = "c8y.cloud.url".parse().unwrap();
    dto.try_update_str(&key, "https://new.example.com").unwrap();
    let rdr = TEdgeConfigReader::from(dto);
    assert_eq!(read(&rdr, "c8y.cloud.url"), "https://new.example.com");
}

#[test]
fn single_document_is_read_without_a_name() {
    let dto = parse("c8y.url = \"https://c8y.example.com\"").unwrap();
    let rdr = TEdgeConfigReader::from(dto);
    assert_eq!(read(&rdr, "c8y.url"), "https://c8y.example.com");
    assert_eq!(
        rdr.try_read_str(&"c8y.cloud.url".parse().unwrap()),
        Err(ConfigError::NotConfigured("c8y.cloud.url".to_owned()))
    );
}

#[test]
fn named_document_is_read_by_name() {
    let dto = parse("c8y.cloud.url = \"https://cloud\"\nc8y.edge.url = \"https://edge\"").unwrap();
    let rdr = TEdgeConfigReader::from(dto);
    assert_eq!(read(&rdr, "c8y.cloud.url"), "https://cloud");
    assert_eq!(read(&rdr, "c8y.edge.url"), "https://edge");
    assert_eq!(
        rdr.try_read_str(&"c8y.url".parse().unwrap()),
        Err(ConfigError::NotConfigured("c8y.url".to_owned()))
    );
    assert_eq!(
        rdr.try_read_str(&"c8y.other.url".parse().unwrap()),
        Err(ConfigError::NotConfigured("c8y.other.url".to_owned()))
    );
}

#[test]
fn update_of_one_instance_leaves_the_other() {
    let mut dto =
        parse("c8y.cloud.url = \"https://cloud\"\nc8y.edge.url = \"https://edge\"").unwrap();
    dto.try_update_str(&"c8y.cloud.url".parse().unwrap(), "https://new")
        .unwrap();
    let rdr = TEdgeConfigReader::from(dto);
    assert_eq!(read(&rdr, "c8y.cloud.url"), "https://new");
    assert_eq!(read(&rdr, "c8y.edge.url"), "https://edge");
}

#[test]
fn device_id_is_read_only() {
    assert_eq!(
        "device.id".parse::<WritableKey>(),
        Err(ConfigError::ReadOnly("device.id".to_owned()))
    );
    assert_eq!(
        "device.id".parse::<ReadableKey>(),
        Ok(ReadableKey::DeviceId)
    );
}

#[test]
fn port_that_is_no_number_is_a_parse_error() {
    let mut dto = parse("c8y.url = \"https://c8y.example.com\"\nmqtt.port = 8883").unwrap();
    let before = parse("c8y.url = \"https://c8y.example.com\"\nmqtt.port = 8883").unwrap();
    let key: WritableKey = "mqtt.port".parse().unwrap();
    assert_eq!(
        dto.try_update_str(&key, "not-a-number"),
        Err(ConfigError::ParseError {
            value: "not-a-number".to_owned(),
            target: ScalarType::U16,
        })
    );
    assert_eq!(dto, before);
}

#[test]
fn port_is_parsed_as_decimal_u16() {
    let mut dto = parse("c8y.url = \"u\"").unwrap();
    assert_eq!(dto.mqtt.port, 1883);
    let key = WritableKey::MqttPort;
    for (text, port) in [
        ("0", 0u16),
        ("8883", 8883),
        ("65535", 65535),
        ("+80", 80),
        ("007", 7),
        ("0000065535", 65535),
    ] {
        dto.try_update_str(&key, text).unwrap();
        assert_eq!(dto.mqtt.port, port);
    }
    for text in [
        "", "+", "-1", "65536", "99999", "4294967296", " 80", "80 ", "8_0", "0x50", "8.0", "++8",
        "8+", "\u{663}",
    ] {
        assert_eq!(
            dto.try_update_str(&key, text),
            Err(ConfigError::ParseError {
                value: text.to_owned(),
                target: ScalarType::U16,
            })
        );
        assert_eq!(dto.mqtt.port, 65535);
    }
}

#[test]
fn port_parsing_agrees_with_the_standard_library() {
    for text in [
        "", "+", "-", "-0", "+0", "0", "1", "+1", "65535", "65536", "065535", "+065536", "1883",
        "12a", "a12", "1 2", "١٢", "9999999999999999999999",
    ] {
        assert_eq!(
            multi_config::text::parse_u16(text),
            text.parse::<u16>().ok(),
            "{text:?}"
        );
    }
    for port in [0u16, 1, 9, 10, 11, 99, 100, 101, 999, 1000, 1883, 9999, 10000, 65535] {
        assert_eq!(multi_config::text::u16_to_string(port), port.to_string());
        assert_eq!(
            multi_config::text::parse_u16(&multi_config::text::u16_to_string(port)),
            Some(port)
        );
    }
}

#[test]
fn port_is_rendered_in_decimal() {
    let mut dto = parse("c8y.url = \"u\"").unwrap();
    dto.mqtt.port = 0;
    assert_eq!(read(&TEdgeConfigReader::from(dto), "mqtt.port"), "0");
    let dto = parse("c8y.url = \"u\"").unwrap();
    assert_eq!(read(&TEdgeConfigReader::from(dto), "mqtt.port"), "1883");
    let dto = parse("c8y.url = \"u\"\nmqtt.port = 65535").unwrap();
    assert_eq!(read(&TEdgeConfigReader::from(dto), "mqtt.port"), "65535");
    let dto = parse("c8y.url = \"u\"\nmqtt.port = 1000").unwrap();
    assert_eq!(read(&TEdgeConfigReader::from(dto), "mqtt.port"), "1000");
}

#[test]
fn update_of_an_absent_instance_is_not_configured() {
    let mut dto = parse("c8y.cloud.url = \"https://cloud\"").unwrap();
    let before = parse("c8y.cloud.url = \"https://cloud\"").unwrap();
    assert_eq!(
        dto.try_update_str(&"c8y.edge.url".parse().unwrap(), "https://edge"),
        Err(ConfigError::NotConfigured("c8y.edge.url".to_owned()))
    );
    assert_eq!(
        dto.try_update_str(&"c8y.url".parse().unwrap(), "https://edge"),
        Err(ConfigError::NotConfigured("c8y.url".to_owned()))
    );
    assert_eq!(dto, before);

    let mut dto = parse("c8y.url = \"https://single\"").unwrap();
    assert_eq!(
        dto.try_update_str(&"c8y.cloud.url".parse().unwrap(), "https://edge"),
        Err(ConfigError::NotConfigured("c8y.cloud.url".to_owned()))
    );
    assert_eq!(dto.c8y.get(None).unwrap().url, "https://single");
}

#[test]
fn update_of_the_device_type() {
    let mut dto = parse("c8y.url = \"u\"").unwrap();
    dto.try_update_str(&WritableKey::DeviceTy, "gateway").unwrap();
    assert_eq!(dto.device.ty, "gateway");
    let rdr = TEdgeConfigReader::from(dto);
    assert_eq!(read(&rdr, "device.type"), "gateway");
    assert_eq!(read(&rdr, "device.id"), "some-device");
}

#[test]
fn unknown_paths_are_unrecognized() {
    for path in [
        "",
        "c8y",
        "c8y.",
        "c8y..",
        "c8y.url.",
        ".c8y.url",
        "c8y.url.url",
        "c8y.a.b.url",
        "c8y.cloud.uri",
        "c8y.cloud",
        "c8x.cloud.url",
        "device",
        "device.ty",
        "device.types",
        "Device.type",
        "mqtt.port ",
        "az.url",
    ] {
        assert_eq!(
            path.parse::<ReadableKey>(),
            Err(ConfigError::UnrecognizedKey(path.to_owned())),
            "{path:?}"
        );
        assert_eq!(
            path.parse::<WritableKey>(),
            Err(ConfigError::UnrecognizedKey(path.to_owned())),
            "{path:?}"
        );
    }
}

#[test]
fn instance_names_are_single_segments() {
    assert_eq!(
        "c8y..url".parse::<ReadableKey>(),
        Ok(ReadableKey::C8yUrl(Some(String::new())))
    );
    assert_eq!(
        "c8y.url2.url".parse::<ReadableKey>(),
        Ok(ReadableKey::C8yUrl(Some("url2".to_owned())))
    );
    assert_eq!(
        "c8y.c8y.url".parse::<WritableKey>(),
        Ok(WritableKey::C8yUrl(Some("c8y".to_owned())))
    );
    assert_eq!(
        "c8y.édge.url".parse::<WritableKey>(),
        Ok(WritableKey::C8yUrl(Some("édge".to_owned())))
    );
}

#[test]
fn parsing_then_rendering_gives_the_path() {
    for path in [
        "device.id",
        "device.type",
        "c8y.url",
        "c8y.cloud.url",
        "c8y..url",
        "c8y.my-edge_2.url",
        "mqtt.port",
    ] {
        assert_eq!(path.parse::<ReadableKey>().unwrap().to_string(), path);
    }
    for path in [
        "device.type",
        "c8y.url",
        "c8y.cloud.url",
        "mqtt.port",
    ] {
        assert_eq!(path.parse::<WritableKey>().unwrap().to_string(), path);
    }
}

#[test]
fn rendering_then_parsing_gives_the_key() {
    for key in [
        ReadableKey::DeviceId,
        ReadableKey::DeviceTy,
        ReadableKey::C8yUrl(None),
        ReadableKey::C8yUrl(Some("cloud".to_owned())),
        ReadableKey::C8yUrl(Some(String::new())),
        ReadableKey::MqttPort,
    ] {
        assert_eq!(key.to_string().parse::<ReadableKey>(), Ok(key));
    }
    for key in [
        WritableKey::DeviceTy,
        WritableKey::C8yUrl(None),
        WritableKey::C8yUrl(Some("edge".to_owned())),
        WritableKey::MqttPort,
    ] {
        assert_eq!(key.to_string().parse::<WritableKey>(), Ok(key.clone()));
        assert_eq!(key.to_readable().to_string(), key.to_string());
    }
    assert_eq!(ReadableKey::DeviceId.to_string(), "device.id");
    assert_eq!(
        ReadableKey::C8yUrl(Some("cloud".to_owned())).to_string(),
        "c8y.cloud.url"
    );
}

#[test]
fn a_name_that_is_no_segment_does_not_come_back() {
    let key = ReadableKey::C8yUrl(Some("a.b".to_owned()));
    assert_eq!(key.to_string(), "c8y.a.b.url");
    assert_eq!(
        "c8y.a.b.url".parse::<ReadableKey>(),
        Err(ConfigError::UnrecognizedKey("c8y.a.b.url".to_owned()))
    );
    let key = ReadableKey::C8yUrl(Some("url".to_owned()));
    assert_eq!(key.to_string(), "c8y.url.url");
    assert_eq!(
        "c8y.url.url".parse::<ReadableKey>(),
        Err(ConfigError::UnrecognizedKey("c8y.url.url".to_owned()))
    );
}

#[test]
fn defaults_stand_for_absent_blocks() {
    let dto = parse("c8y.url = \"u\"").unwrap();
    assert_eq!(dto.device.ty, "thin-edge.io");
    assert_eq!(dto.mqtt.port, 1883);
    let dto = parse("c8y.url = \"u\"\ndevice.ty = \"gateway\"\nmqtt.port = 8883").unwrap();
    assert_eq!(dto.device.ty, "gateway");
    assert_eq!(dto.mqtt.port, 8883);
}

#[test]
fn documents_without_the_structure_are_invalid() {
    for text in [
        "",
        "device.ty = \"gateway\"",
        "c8y = 5",
        "c8y = \"https://c8y.example.com\"",
        "c8y.url = 5",
        "c8y.cloud.url = 5",
        "c8y.cloud.uri = \"u\"",
        "c8y.cloud.url = \"u\"\nc8y.edge = \"v\"",
        "c8y.url = \"u\"\ndevice = 3",
        "c8y.url = \"u\"\ndevice.type = \"gateway\"",
        "c8y.url = \"u\"\ndevice.ty = 3",
        "c8y.url = \"u\"\nmqtt.port = \"8883\"",
        "c8y.url = \"u\"\nmqtt.port = 65536",
        "c8y.url = \"u\"\nmqtt.port = -1",
        "c8y.url = \"u\"\nmqtt.port = 1.5",
        "c8y.url = \"u\"\nmqtt.host = \"h\"",
        "c8y.url = \"u\"\nmqtt = []",
    ] {
        assert_eq!(parse(text), Err(ConfigError::InvalidDocument), "{text:?}");
    }
    assert_eq!(
        TEdgeConfigDto::from_document(&Node::Text("c8y".to_owned())),
        Err(ConfigError::InvalidDocument)
    );
    assert_eq!(
        TEdgeConfigDto::from_document(&Node::Other),
        Err(ConfigError::InvalidDocument)
    );
}

#[test]
fn the_named_shape_is_tried_first() {
    let dto = parse("[c8y]").unwrap();
    assert_eq!(dto.c8y, Multi::Multi(Vec::new()));

    let dto = parse("c8y.url.url = \"https://nested\"").unwrap();
    assert_eq!(dto.c8y.get(Some("url")).unwrap().url, "https://nested");
    assert_eq!(dto.c8y.get(None), None);

    let dto = parse("c8y.url = \"https://single\"\nc8y.extra = 1").unwrap();
    assert_eq!(dto.c8y.get(None).unwrap().url, "https://single");

    let dto = parse("c8y.cloud.url = \"https://cloud\"\nc8y.cloud.extra = 1\nother = 2").unwrap();
    assert_eq!(dto.c8y.get(Some("cloud")).unwrap().url, "https://cloud");
}

#[test]
fn a_document_comes_back_from_its_document_form() {
    for text in [
        "c8y.url = \"https://c8y.example.com\"",
        "[c8y]",
        "c8y.cloud.url = \"https://cloud\"",
        "c8y.cloud.url = \"https://cloud\"\nc8y.edge.url = \"https://edge\"\ndevice.ty = \"gw\"\nmqtt.port = 8883",
    ] {
        let dto = parse(text).unwrap();
        let node = dto.to_document();
        assert_eq!(TEdgeConfigDto::from_document(&node), Ok(parse(text).unwrap()));
    }
}

#[test]
fn the_document_form_keeps_the_shape() {
    let single = parse("c8y.url = \"https://single\"").unwrap().to_document();
    let table = |entries: Vec<(&str, Node)>| {
        Node::Table(
            entries
                .into_iter()
                .map(|(name, node)| (name.to_owned(), node))
                .collect(),
        )
    };
    assert_eq!(
        single,
        table(vec![
            ("device", table(vec![("ty", Node::Text("thin-edge.io".to_owned()))])),
            ("c8y", table(vec![("url", Node::Text("https://single".to_owned()))])),
            ("mqtt", table(vec![("port", Node::Integer(1883))])),
        ])
    );
    let named = parse("c8y.cloud.url = \"https://cloud\"\nmqtt.port = 1")
        .unwrap()
        .to_document();
    assert_eq!(
        named,
        table(vec![
            ("device", table(vec![("ty", Node::Text("thin-edge.io".to_owned()))])),
            (
                "c8y",
                table(vec![(
                    "cloud",
                    table(vec![("url", Node::Text("https://cloud".to_owned()))])
                )])
            ),
            ("mqtt", table(vec![("port", Node::Integer(1))])),
        ])
    );
}
