use miniblog::form::decode;
use miniblog::form_fields;
use miniblog::params_from_query;
use miniblog::form::field;
use miniblog::form::field_u64;
use miniblog::form::pairs;
use miniblog::form::parse_u64_bytes;

#[test]
fn pairs_split_on_ampersand_and_first_equals() {
    let ps = pairs(b"a=b&c=d");
    assert_eq!(ps.len(), 2);
    assert_eq!(ps[0].0, b"a");
    assert_eq!(ps[0].1, b"b");
    assert_eq!(ps[1].0, b"c");
    assert_eq!(ps[1].1, b"d");
    let ps = pairs(b"t=a=b");
    assert_eq!(ps.len(), 1);
    assert_eq!(ps[0].0, b"t");
    assert_eq!(ps[0].1, b"a=b");
    let ps = pairs(b"flag&x=1");
    assert_eq!(ps.len(), 2);
    assert_eq!(ps[0].0, b"flag");
    assert_eq!(ps[0].1, b"");
    assert!(pairs(b"").is_empty());
}

#[test]
fn decode_handles_plus_and_percent() {
    assert_eq!(decode(b"a+b"), Some(b"a b".to_vec()));
    assert_eq!(decode(b"%41%62"), Some(b"Ab".to_vec()));
    assert_eq!(decode(b"%2f"), Some(b"/".to_vec()));
    assert_eq!(decode(b"plain"), Some(b"plain".to_vec()));
    assert_eq!(decode(b""), Some(b"".to_vec()));
    assert_eq!(decode(b"%4"), None);
    assert_eq!(decode(b"%zz"), None);
    assert_eq!(decode(b"a%"), None);
}

#[test]
fn field_takes_the_first_pair_and_decodes_it() {
    assert_eq!(field(b"title=T&text=X", b"title"), Some(b"T".to_vec()));
    assert_eq!(field(b"title=a+b%21&text=X", b"title"), Some(b"a b!".to_vec()));
    assert_eq!(field(b"title=first&title=second", b"title"), Some(b"first".to_vec()));
    assert_eq!(field(b"title=T", b"text"), None);
    assert_eq!(field(b"title=%GG", b"title"), None);
    assert_eq!(field(b"", b"title"), None);
}

#[test]
fn numeric_fields_parse_as_u64() {
    assert_eq!(field_u64(b"page=2&posts_per_page=5", b"page"), Some(2));
    assert_eq!(field_u64(b"page=2&posts_per_page=5", b"posts_per_page"), Some(5));
    assert_eq!(field_u64(b"page=2", b"posts_per_page"), None);
    assert_eq!(field_u64(b"page=x", b"page"), None);
    assert_eq!(field_u64(b"page=", b"page"), None);
    assert_eq!(field_u64(b"page=%32", b"page"), Some(2));
}

#[test]
fn listing_params_come_from_the_query() {
    let p = params_from_query(b"page=2&posts_per_page=5");
    assert_eq!(p.page, Some(2));
    assert_eq!(p.posts_per_page, Some(5));
    let p = params_from_query(b"");
    assert_eq!(p.page, None);
    assert_eq!(p.posts_per_page, None);
    let p = params_from_query(b"posts_per_page=zzz&page=7");
    assert_eq!(p.page, Some(7));
    assert_eq!(p.posts_per_page, None);
}

#[test]
fn form_fields_need_title_and_text() {
    let r = form_fields(b"title=A+day&text=It+rained%2E");
    assert_eq!(r, Some((b"A day".to_vec(), b"It rained.".to_vec())));
    assert_eq!(form_fields(b"title=only"), None);
    assert_eq!(form_fields(b"text=only"), None);
    assert_eq!(form_fields(b"title=%&text=x"), None);
}

#[test]
fn parse_u64_bytes_accepts_exactly_decimal_u64() {
    assert_eq!(parse_u64_bytes(b"123"), Some(123));
    assert_eq!(parse_u64_bytes(b"18446744073709551615"), Some(u64::MAX));
    assert_eq!(parse_u64_bytes(b"18446744073709551616"), None);
    assert_eq!(parse_u64_bytes(b""), None);
    assert_eq!(parse_u64_bytes(b"12 "), None);
}
