use zero2prod::form::FormData;

fn body(s: &str) -> Vec<u8> {
    s.as_bytes().to_vec()
}

#[test]
fn both_fields_are_decoded() {
    let form = FormData::parse_body(&body("name=le%20guin&email=ursula_le_guin%40gmail.com"))
        .unwrap();
    assert_eq!(form.email, "ursula_le_guin@gmail.com");
    assert_eq!(form.name, "le guin");
}

#[test]
fn plus_decodes_to_a_space() {
    let form = FormData::parse_body(&body("name=le+guin&email=a%40b.com")).unwrap();
    assert_eq!(form.name, "le guin");
}

#[test]
fn percent_escape_decodes_to_its_byte() {
    let form = FormData::parse_body(&body("name=a%2Bb&email=a%40b.com")).unwrap();
    assert_eq!(form.name, "a+b");
}

#[test]
fn broken_percent_escape_passes_through() {
    let form = FormData::parse_body(&body("name=a%zzb&email=a%40b.com")).unwrap();
    assert_eq!(form.name, "a%zzb");
}

#[test]
fn percent_escape_at_the_end_passes_through() {
    let form = FormData::parse_body(&body("name=a%4&email=a%40b.com")).unwrap();
    assert_eq!(form.name, "a%4");
}

#[test]
fn keys_are_decoded_too() {
    let form = FormData::parse_body(&body("na%6De=x&email=y%40z.com")).unwrap();
    assert_eq!(form.name, "x");
}

#[test]
fn missing_email_is_refused() {
    assert!(FormData::parse_body(&body("name=le%20guin")).is_none());
}

#[test]
fn missing_name_is_refused() {
    assert!(FormData::parse_body(&body("email=ursula_le_guin%40gmail.com")).is_none());
}

#[test]
fn empty_body_is_refused() {
    assert!(FormData::parse_body(&body("")).is_none());
}

#[test]
fn duplicate_key_is_refused() {
    assert!(FormData::parse_body(&body("name=a&name=b&email=a%40b.com")).is_none());
}

#[test]
fn unknown_keys_are_ignored() {
    let form = FormData::parse_body(&body("name=a&extra=1&email=a%40b.com")).unwrap();
    assert_eq!(form.name, "a");
    assert_eq!(form.email, "a@b.com");
}

#[test]
fn empty_segments_are_ignored() {
    let form = FormData::parse_body(&body("&&name=a&&email=a%40b.com&")).unwrap();
    assert_eq!(form.name, "a");
}

#[test]
fn a_key_without_a_value_counts_with_an_empty_value() {
    let form = FormData::parse_body(&body("name&email=a%40b.com")).unwrap();
    assert_eq!(form.name, "");
}

#[test]
fn an_empty_value_is_kept_empty() {
    let form = FormData::parse_body(&body("name=&email=ursula_le_guin%40gmail.com")).unwrap();
    assert_eq!(form.name, "");
    assert_eq!(form.email, "ursula_le_guin@gmail.com");
}

#[test]
fn a_field_that_is_not_utf8_is_refused() {
    assert!(FormData::parse_body(&body("name=%FF&email=a%40b.com")).is_none());
}

#[test]
fn multibyte_utf8_escapes_decode() {
    let form = FormData::parse_body(&body("name=ursula%C3%A9&email=a%40b.com")).unwrap();
    assert_eq!(form.name, "ursula\u{e9}");
}
