use heroes::form::{parse_i32, parse_strength, FileSave};
use heroes::models::Hero;
use heroes::multipart::{parse_form, parse_multipart, FormError};
use heroes::routes::{delete, insert, list, new, process_update, update, FlashKind};
use heroes::store::HeroTable;

const BOUNDARY: &[u8] = b"XyZZy42";

fn text_part(name: &str, value: &[u8]) -> Vec<u8> {
    let mut p = Vec::new();
    p.extend_from_slice(b"--XyZZy42\r\nContent-Disposition: form-data; name=\"");
    p.extend_from_slice(name.as_bytes());
    p.extend_from_slice(b"\"\r\n\r\n");
    p.extend_from_slice(value);
    p
}

fn file_part(name: &str, filename: &str, content: &[u8]) -> Vec<u8> {
    let mut p = Vec::new();
    p.extend_from_slice(b"--XyZZy42\r\nContent-Disposition: form-data; name=\"");
    p.extend_from_slice(name.as_bytes());
    p.extend_from_slice(b"\"; filename=\"");
    p.extend_from_slice(filename.as_bytes());
    p.extend_from_slice(b"\"\r\nContent-Type: application/octet-stream\r\n\r\n");
    p.extend_from_slice(content);
    p
}

fn body_of(parts: Vec<Vec<u8>>) -> Vec<u8> {
    let mut b = Vec::new();
    for p in parts {
        b.extend_from_slice(&p);
        b.extend_from_slice(b"\r\n");
    }
    b.extend_from_slice(b"--XyZZy42--");
    b
}

fn full_body(fantasy: &str, real: Option<&str>, strength: Option<&str>, photo: (&str, &[u8])) -> Vec<u8> {
    let mut parts = vec![
        file_part("spotted_photo", photo.0, photo.1),
        text_part("fantasy_name", fantasy.as_bytes()),
    ];
    if let Some(r) = real {
        parts.push(text_part("real_name", r.as_bytes()));
    }
    if let Some(s) = strength {
        parts.push(text_part("strength_level", s.as_bytes()));
    }
    body_of(parts)
}

#[test]
fn multipart_parses_text_and_file_parts() {
    let body = body_of(vec![
        text_part("fantasy_name", b"Nightwatch"),
        file_part("spotted_photo", "cape.png", b"PNGBYTES"),
    ]);
    let parts = parse_multipart(&body, BOUNDARY).expect("well-formed body");
    assert_eq!(parts.len(), 2);
    assert_eq!(parts[0].name, b"fantasy_name".to_vec());
    assert!(parts[0].filename.is_none());
    assert_eq!(parts[0].content, b"Nightwatch".to_vec());
    assert_eq!(parts[1].name, b"spotted_photo".to_vec());
    assert_eq!(parts[1].filename, Some(b"cape.png".to_vec()));
    assert_eq!(parts[1].content, b"PNGBYTES".to_vec());
}

#[test]
fn multipart_rejects_garbage() {
    let allowed = vec![b"fantasy_name".to_vec()];
    assert!(matches!(
        parse_form(b"this is not multipart", BOUNDARY, &allowed),
        Err(FormError::Malformed)
    ));
    assert!(matches!(
        parse_form(b"--XyZZy42\r\nno disposition\r\n\r\nx\r\n--XyZZy42--", BOUNDARY, &allowed),
        Err(FormError::Malformed)
    ));
}

#[test]
fn form_with_field_outside_allowed_set_is_rejected() {
    let body = body_of(vec![text_part("villain_name", b"Joker")]);
    let allowed = vec![b"fantasy_name".to_vec(), b"real_name".to_vec()];
    assert!(matches!(parse_form(&body, BOUNDARY, &allowed), Err(FormError::FieldNotAllowed)));
}

#[test]
fn insert_stores_exactly_what_was_submitted() {
    let mut table = HeroTable::new();
    let body = full_body("Nightwatch", Some("Bruce"), Some("7"), ("cape.png", b"PNGBYTES"));
    let r = insert(&mut table, &body, BOUNDARY);
    assert_eq!(r.kind, FlashKind::Success);
    assert_eq!(r.redirect_to, "/".to_string());
    assert_eq!(r.message, "Success! We got a new Hero on our database!".to_string());
    let save: FileSave = r.save.expect("a photo to write");
    assert_eq!(save.path, "imgs/cape.png".to_string());
    assert_eq!(save.content, b"PNGBYTES".to_vec());
    let rows = table.list();
    assert_eq!(rows.len(), 1);
    let h: &Hero = &rows[0];
    assert_eq!(h.fantasy_name, "Nightwatch".to_string());
    assert_eq!(h.real_name, Some("Bruce".to_string()));
    assert_eq!(h.spotted_photo, "imgs/cape.png".to_string());
    assert_eq!(h.strength_level, 7);
}

#[test]
fn missing_real_name_stays_unknown_not_empty() {
    let mut table = HeroTable::new();
    let body = full_body("Nightwatch", None, Some("7"), ("cape.png", b"x"));
    let r = insert(&mut table, &body, BOUNDARY);
    assert_eq!(r.kind, FlashKind::Success);
    let rows = table.list();
    assert_eq!(rows[0].real_name, None);
    assert_ne!(rows[0].real_name, Some(String::new()));
}

#[test]
fn missing_fantasy_name_gets_placeholder() {
    let mut table = HeroTable::new();
    let body = body_of(vec![file_part("spotted_photo", "a.png", b"x")]);
    let r = insert(&mut table, &body, BOUNDARY);
    assert_eq!(r.kind, FlashKind::Success);
    assert_eq!(table.list()[0].fantasy_name, "No Name.".to_string());
}

#[test]
fn missing_or_unparsable_strength_becomes_zero() {
    let mut table = HeroTable::new();
    let r = insert(&mut table, &full_body("A", None, None, ("a.png", b"x")), BOUNDARY);
    assert_eq!(r.kind, FlashKind::Success);
    let r = insert(&mut table, &full_body("B", None, Some("over 9000"), ("b.png", b"x")), BOUNDARY);
    assert_eq!(r.kind, FlashKind::Success);
    let rows = table.list();
    assert_eq!(rows[0].strength_level, 0);
    assert_eq!(rows[1].strength_level, 0);
}

#[test]
fn insert_without_photo_is_an_error_not_a_crash() {
    let mut table = HeroTable::new();
    let body = body_of(vec![text_part("fantasy_name", b"Ghost")]);
    let r = insert(&mut table, &body, BOUNDARY);
    assert_eq!(r.kind, FlashKind::Error);
    assert_eq!(r.redirect_to, "/new".to_string());
    assert!(r.save.is_none());
    assert_eq!(table.list().len(), 0);
}

#[test]
fn disallowed_field_does_not_mutate_the_store() {
    let mut table = HeroTable::new();
    let good = full_body("Kept", None, Some("1"), ("k.png", b"x"));
    assert_eq!(insert(&mut table, &good, BOUNDARY).kind, FlashKind::Success);
    let parts = vec![
        file_part("spotted_photo", "h.png", b"x"),
        text_part("secret_field", b"oops"),
    ];
    let r = insert(&mut table, &body_of(parts), BOUNDARY);
    assert_eq!(r.kind, FlashKind::Error);
    assert!(r.save.is_none());
    let rows = table.list();
    assert_eq!(rows.len(), 1);
    assert_eq!(rows[0].fantasy_name, "Kept".to_string());
}

#[test]
fn update_changes_only_the_targeted_record() {
    let mut table = HeroTable::new();
    insert(&mut table, &full_body("First", Some("Ann"), Some("1"), ("a.png", b"a")), BOUNDARY);
    insert(&mut table, &full_body("Second", Some("Bob"), Some("2"), ("b.png", b"b")), BOUNDARY);
    let before = table.list();
    let id0 = before[0].id;
    let id1 = before[1].id;

    let parts = vec![
        file_part("spotted_photo", "new.png", b"n"),
        text_part("id", id1.to_string().as_bytes()),
        text_part("fantasy_name", b"SecondChanged"),
        text_part("strength_level", b"9"),
    ];
    let r = process_update(&mut table, &body_of(parts), BOUNDARY);
    assert_eq!(r.kind, FlashKind::Success);
    assert_eq!(r.save.unwrap().path, "imgs/new.png".to_string());

    let after = table.list();
    assert_eq!(after.len(), 2);
    assert_eq!(after[0].id, id0);
    assert_eq!(after[0].fantasy_name, "First".to_string());
    assert_eq!(after[0].real_name, Some("Ann".to_string()));
    assert_eq!(after[0].spotted_photo, "imgs/a.png".to_string());
    assert_eq!(after[0].strength_level, 1);
    assert_eq!(after[1].id, id1);
    assert_eq!(after[1].fantasy_name, "SecondChanged".to_string());
    assert_eq!(after[1].real_name, None);
    assert_eq!(after[1].spotted_photo, "imgs/new.png".to_string());
    assert_eq!(after[1].strength_level, 9);
}

#[test]
fn update_without_id_is_an_error() {
    let mut table = HeroTable::new();
    insert(&mut table, &full_body("Only", None, Some("3"), ("o.png", b"o")), BOUNDARY);
    let body = body_of(vec![
        file_part("spotted_photo", "x.png", b"x"),
        text_part("fantasy_name", b"Renamed"),
    ]);
    let r = process_update(&mut table, &body, BOUNDARY);
    assert_eq!(r.kind, FlashKind::Error);
    assert_eq!(table.list()[0].fantasy_name, "Only".to_string());
}

#[test]
fn update_of_unknown_id_leaves_every_record_alone() {
    let mut table = HeroTable::new();
    insert(&mut table, &full_body("Only", None, Some("3"), ("o.png", b"o")), BOUNDARY);
    let body = body_of(vec![
        file_part("spotted_photo", "x.png", b"x"),
        text_part("id", b"999"),
        text_part("fantasy_name", b"Renamed"),
    ]);
    let r = process_update(&mut table, &body, BOUNDARY);
    assert_eq!(r.kind, FlashKind::Success);
    let rows = table.list();
    assert_eq!(rows.len(), 1);
    assert_eq!(rows[0].fantasy_name, "Only".to_string());
}

#[test]
fn delete_makes_get_report_not_found_and_list_drop_it() {
    let mut table = HeroTable::new();
    insert(&mut table, &full_body("Gone", None, Some("1"), ("g.png", b"g")), BOUNDARY);
    insert(&mut table, &full_body("Stays", None, Some("2"), ("s.png", b"s")), BOUNDARY);
    let rows = table.list();
    let gone_id = rows[0].id;
    let stays_id = rows[1].id;

    let r = delete(&mut table, gone_id);
    assert_eq!(r.kind, FlashKind::Success);
    assert_eq!(r.redirect_to, "/".to_string());
    assert_eq!(r.message, "Yey! The hero was deleted.".to_string());

    assert!(table.get(gone_id).is_none());
    let rows = table.list();
    assert_eq!(rows.len(), 1);
    assert_eq!(rows[0].id, stays_id);
    assert_eq!(rows[0].fantasy_name, "Stays".to_string());
}

#[test]
fn delete_of_unknown_id_still_redirects_home() {
    let mut table = HeroTable::new();
    let r = delete(&mut table, 42);
    assert_eq!(r.kind, FlashKind::Success);
    assert_eq!(table.list().len(), 0);
}

#[test]
fn deleted_ids_are_never_reused() {
    let mut table = HeroTable::new();
    insert(&mut table, &full_body("A", None, None, ("a.png", b"a")), BOUNDARY);
    let first_id = table.list()[0].id;
    delete(&mut table, first_id);
    insert(&mut table, &full_body("B", None, None, ("b.png", b"b")), BOUNDARY);
    assert_ne!(table.list()[0].id, first_id);
}

#[test]
fn listing_is_idempotent_without_intervening_writes() {
    let mut table = HeroTable::new();
    insert(&mut table, &full_body("One", None, Some("1"), ("1.png", b"1")), BOUNDARY);
    insert(&mut table, &full_body("Two", None, Some("2"), ("2.png", b"2")), BOUNDARY);
    let a = list(&table, None);
    let b = list(&table, None);
    assert_eq!(a.heroes.len(), b.heroes.len());
    for (x, y) in a.heroes.iter().zip(b.heroes.iter()) {
        assert_eq!(x.id, y.id);
        assert_eq!(x.fantasy_name, y.fantasy_name);
        assert_eq!(x.real_name, y.real_name);
        assert_eq!(x.spotted_photo, y.spotted_photo);
        assert_eq!(x.strength_level, y.strength_level);
    }
    assert_eq!(a.message, "Listing heroes...".to_string());
    let c = list(&table, Some("flash!".to_string()));
    assert_eq!(c.message, "flash!".to_string());
}

#[test]
fn new_page_carries_the_flash_through() {
    let page = new(Some("try again".to_string()));
    assert_eq!(page.flash, Some("try again".to_string()));
    let page = new(None);
    assert_eq!(page.flash, None);
}

#[test]
fn update_page_prefills_the_found_record() {
    let mut table = HeroTable::new();
    insert(&mut table, &full_body("Editable", Some("Eve"), Some("5"), ("e.png", b"e")), BOUNDARY);
    let id = table.list()[0].id;
    let page = update(&table, id);
    let h = page.hero.expect("record exists");
    assert_eq!(h.fantasy_name, "Editable".to_string());
    assert_eq!(h.strength_level, 5);
    let page = update(&table, id + 1);
    assert!(page.hero.is_none());
}

#[test]
fn end_to_end_insert_then_list_shows_the_row_and_the_photo_bytes() {
    let mut table = HeroTable::new();
    let body = full_body("Nightwatch", None, Some("7"), ("cape.png", b"UPLOADED"));
    let r = insert(&mut table, &body, BOUNDARY);
    assert_eq!(r.kind, FlashKind::Success);
    assert_eq!(r.redirect_to, "/".to_string());
    let save = r.save.unwrap();
    assert_eq!(save.path, "imgs/cape.png".to_string());
    assert_eq!(save.content, b"UPLOADED".to_vec());

    let page = list(&table, Some(r.message));
    assert_eq!(page.heroes.len(), 1);
    assert_eq!(page.heroes[0].fantasy_name, "Nightwatch".to_string());
    assert_eq!(page.heroes[0].strength_level, 7);
    assert_eq!(page.heroes[0].spotted_photo, "imgs/cape.png".to_string());
    assert_eq!(page.message, "Success! We got a new Hero on our database!".to_string());
}

#[test]
fn numbers_parse_exactly_as_signed_decimals() {
    assert_eq!(parse_i32(b"7"), Some(7));
    assert_eq!(parse_i32(b"0"), Some(0));
    assert_eq!(parse_i32(b"-12"), Some(-12));
    assert_eq!(parse_i32(b"+3"), Some(3));
    assert_eq!(parse_i32(b"007"), Some(7));
    assert_eq!(parse_i32(b""), None);
    assert_eq!(parse_i32(b"-"), None);
    assert_eq!(parse_i32(b"1 2"), None);
    assert_eq!(parse_i32(b"12a"), None);
    assert_eq!(parse_i32(b"2147483647"), Some(i32::MAX));
    assert_eq!(parse_i32(b"2147483648"), None);
    assert_eq!(parse_i32(b"-2147483648"), Some(i32::MIN));
    assert_eq!(parse_i32(b"-2147483649"), None);
    assert_eq!(parse_i32(b"99999999999999999999"), None);
    assert_eq!(parse_strength(None), 0);
    assert_eq!(parse_strength(Some(&b"42".to_vec())), 42);
    assert_eq!(parse_strength(Some(&b"banana".to_vec())), 0);
}

#[test]
fn multibyte_text_fields_decode_to_the_submitted_characters() {
    let mut table = HeroTable::new();
    let body = full_body("H\u{e9}ro\u{2728}", Some("Ren\u{e9}e"), Some("4"), ("caf\u{e9}.png", b"x"));
    let r = insert(&mut table, &body, BOUNDARY);
    assert_eq!(r.kind, FlashKind::Success);
    let rows = table.list();
    assert_eq!(rows[0].fantasy_name, "H\u{e9}ro\u{2728}".to_string());
    assert_eq!(rows[0].real_name, Some("Ren\u{e9}e".to_string()));
    assert_eq!(rows[0].spotted_photo, "imgs/caf\u{e9}.png".to_string());
}

#[test]
fn text_field_that_is_not_utf8_is_rejected() {
    let mut table = HeroTable::new();
    let parts = vec![
        file_part("spotted_photo", "a.png", b"x"),
        text_part("fantasy_name", &[0xff, 0xfe, 0x80]),
    ];
    let r = insert(&mut table, &body_of(parts), BOUNDARY);
    assert_eq!(r.kind, FlashKind::Error);
    assert_eq!(table.list().len(), 0);
}

#[test]
fn empty_or_truncated_bodies_do_not_parse() {
    assert!(parse_multipart(b"", BOUNDARY).is_none());
    assert!(parse_multipart(b"--XyZZy42", BOUNDARY).is_none());
    assert!(parse_multipart(b"--XyZZy42\r\n", BOUNDARY).is_none());
    let body = body_of(vec![text_part("fantasy_name", b"x")]);
    let truncated = &body[..body.len() - 2];
    assert!(parse_multipart(truncated, BOUNDARY).is_none());
    assert!(parse_multipart(b"--XyZZy42--", BOUNDARY).map(|p| p.len()) == Some(0));
}
