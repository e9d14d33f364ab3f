use xpmanager::errors::ErrorKind;
use xpmanager::filelib::json;
use xpmanager::filelib::json::JsonField;

fn pair(key: &str, value: &str) -> (String, String) {
    (key.to_string(), value.to_string())
}

#[test]
fn read_json_gives_the_fields_of_an_object() {
    assert_eq!(
        json::read_json("{\"name\": \"XPManager\", \"lang\": \"en\"}"),
        Ok(vec![pair("lang", "en"), pair("name", "XPManager")])
    );
    assert_eq!(json::read_json("{}"), Ok(vec![]));
    assert_eq!(
        json::read_json(" { \"k\" : \"v \\\" \\u00e9\" } "),
        Ok(vec![pair("k", "v \" é")])
    );
}

#[test]
fn read_json_refuses_a_field_that_is_no_string() {
    for text in [
        "{\"a\": 1}",
        "{\"a\": \"x\", \"b\": null}",
        "{\"a\": [\"x\"]}",
        "{\"a\": {\"b\": \"c\"}}",
        "{\"a\": true, \"b\": \"x\"}",
    ] {
        assert_eq!(json::read_json(text), Err(ErrorKind::InvalidJson));
    }
}

#[test]
fn read_json_refuses_what_is_no_object() {
    for text in ["", "   ", "[]", "\"text\"", "12", "null", "{", "{\"a\": }", "{\"a\": \"b\"} x"] {
        assert_eq!(json::read_json(text), Err(ErrorKind::CanNotGetJsonObject));
    }
}

#[test]
fn string_fields_judges_parsed_fields() {
    assert_eq!(json::string_fields(None), Err(ErrorKind::CanNotGetJsonObject));
    assert_eq!(json::string_fields(Some(vec![])), Ok(vec![]));
    let field = |key: &str, text: Option<&str>| JsonField {
        key: key.to_string(),
        text: text.map(|t| t.to_string()),
    };
    assert_eq!(
        json::string_fields(Some(vec![field("b", Some("2")), field("a", Some("1"))])),
        Ok(vec![pair("b", "2"), pair("a", "1")])
    );
    assert_eq!(
        json::string_fields(Some(vec![field("b", Some("2")), field("a", None)])),
        Err(ErrorKind::InvalidJson)
    );
}
