use babel42::interfaces::{parse_action_str, parse_field_line, parse_msg_str, parse_srv_str};

#[test]
fn parse_field_primitive() {
    let f = parse_field_line("int32 x").unwrap();
    assert_eq!(f.field_type, "int32");
    assert_eq!(f.name, "x");
    assert_eq!(f.array_len, None);
}

#[test]
fn parse_field_unbounded_array() {
    let f = parse_field_line("int32[] sequence").unwrap();
    assert_eq!(f.field_type, "int32");
    assert_eq!(f.name, "sequence");
    assert_eq!(f.array_len, Some(0));
}

#[test]
fn parse_field_fixed_array() {
    let f = parse_field_line("float64[3] pos").unwrap();
    assert_eq!(f.field_type, "float64");
    assert_eq!(f.name, "pos");
    assert_eq!(f.array_len, Some(3));
}

#[test]
fn parse_field_ignores_comments() {
    assert!(parse_field_line("# comment").is_none());
    assert!(parse_field_line("  ").is_none());
}

#[test]
fn parse_srv_addtwoints() {
    let srv = r#"# Request
int64 a
int64 b
---
# Response
int64 sum"#;
    let def = parse_srv_str(srv, "AddTwoInts.srv").unwrap();
    assert_eq!(def.name, "AddTwoInts");
    assert_eq!(def.request.len(), 2);
    assert_eq!(def.request[0].name, "a");
    assert_eq!(def.response.len(), 1);
    assert_eq!(def.response[0].name, "sum");
}

#[test]
fn parse_action_fibonacci() {
    let action = r#"# Goal
int32 order
---
# Result
int32[] sequence
---
# Feedback
int32[] partial_sequence"#;
    let def = parse_action_str(action, "Fibonacci.action").unwrap();
    assert_eq!(def.name, "Fibonacci");
    assert_eq!(def.goal.len(), 1);
    assert_eq!(def.goal[0].name, "order");
    assert_eq!(def.result.len(), 1);
    assert_eq!(def.result[0].array_len, Some(0));
    assert_eq!(def.feedback.len(), 1);
}

#[test]
fn field_line_with_extra_tokens_is_none() {
    assert!(parse_field_line("string name \"robot\"").is_none());
}

#[test]
fn field_line_is_trimmed() {
    let f = parse_field_line("\t geometry_msgs/Point[] points \r").unwrap();
    assert_eq!(f.field_type, "geometry_msgs/Point");
    assert_eq!(f.name, "points");
    assert_eq!(f.array_len, Some(0));
}

#[test]
fn field_line_with_bad_bound_has_no_length() {
    let f = parse_field_line("int8[x] v").unwrap();
    assert_eq!(f.field_type, "int8");
    assert_eq!(f.array_len, None);
}

#[test]
fn field_line_with_one_word_is_none() {
    assert!(parse_field_line("int32").is_none());
}

#[test]
fn msg_name_and_fields_come_from_path_and_text() {
    let def = parse_msg_str("int32 x\n# c\nfloat64[2] y\n", "msg/Point2.msg").unwrap();
    assert_eq!(def.name, "Point2");
    assert_eq!(def.fields.len(), 2);
    assert_eq!(def.fields[1].name, "y");
    assert_eq!(def.fields[1].array_len, Some(2));
}

#[test]
fn srv_without_separator_has_empty_response() {
    let def = parse_srv_str("int64 a\n", "Only.srv").unwrap();
    assert_eq!(def.request.len(), 1);
    assert_eq!(def.response.len(), 0);
}
