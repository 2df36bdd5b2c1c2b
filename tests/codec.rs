use kind_checker::names::{hash_name, name_id, NameTable, ID_LIMIT};
use kind_checker::span::{decode_span, encode_span, Range, Span, GENERATED_CODE};

fn range(start: u32, end: u32, ctx: u64) -> Span {
    Span::Locatable(Range { start, end, ctx })
}

#[test]
fn span_round_trip_on_samples() {
    let samples = [
        range(0, 0, 0),
        range(1, 2, 3),
        range(0xFF_FFFF, 0xFF_FFFF, 0x7FF),
        range(12345, 67890, 42),
        Span::Generated,
    ];
    for s in samples {
        assert_eq!(decode_span(encode_span(s)), Some(s));
    }
}

#[test]
fn span_packing_layout() {
    assert_eq!(encode_span(range(5, 7, 1)), (1u64 << 48) | (7u64 << 24) | 5);
    assert_eq!(encode_span(Span::Generated), GENERATED_CODE);
}

#[test]
fn decode_rejects_numbers_past_the_generated_mark() {
    assert_eq!(decode_span(GENERATED_CODE + 1), None);
    assert_eq!(decode_span(u64::MAX), None);
}

#[test]
fn same_name_same_id_twice() {
    let mut table = NameTable::new();
    let a = table.encode_identifier("Nat.succ").unwrap();
    let b = table.encode_identifier("Nat.succ").unwrap();
    assert_eq!(a, b);
    assert_eq!(table.decode_identifier(a), Some("Nat.succ".to_string()));
}

#[test]
fn distinct_names_get_distinct_ids() {
    let mut table = NameTable::new();
    let mut given: Vec<(String, u64)> = Vec::new();
    let mut collisions = 0;
    for i in 0..5000 {
        let name = format!("Name.n{}", i);
        match table.encode_identifier(&name) {
            Ok(id) => given.push((name, id)),
            Err(c) => {
                collisions += 1;
                assert_eq!(c.incoming, name);
                assert_ne!(c.existing, name);
                assert_eq!(table.encode_identifier(&c.existing), Ok(c.id));
            }
        }
    }
    let mut ids: Vec<u64> = given.iter().map(|(_, id)| *id).collect();
    ids.sort();
    ids.dedup();
    assert_eq!(ids.len(), given.len());
    assert_eq!(given.len() + collisions, 5000);
    for (name, id) in &given {
        assert_eq!(table.decode_identifier(*id).as_deref(), Some(name.as_str()));
    }
}

#[test]
fn hash_collision_is_reported() {
    let mut table = NameTable::new();
    assert_eq!(fxhash::hash64("Name.n109"), fxhash::hash64("Name.n184"));
    let id = table.encode_identifier("Name.n109").unwrap();
    let err = table.encode_identifier("Name.n184").unwrap_err();
    assert_eq!(err.id, id);
    assert_eq!(err.existing, "Name.n109");
}

#[test]
fn unknown_id_decodes_to_nothing() {
    let table = NameTable::new();
    assert_eq!(table.decode_identifier(7), None);
}

#[test]
fn ids_are_the_high_bits_of_fxhash() {
    assert_eq!(hash_name("Nat"), fxhash::hash64("Nat"));
    assert_eq!(name_id("Nat"), fxhash::hash64("Nat") >> 4);
    assert!(name_id("List.cons") < ID_LIMIT);
    assert_ne!(name_id("a"), name_id("b"));
}
