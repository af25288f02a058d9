use bbscript_db::command_db::{CodeBlock, Function, GameDB};
use bbscript_db::error::BBScriptError;

fn sample_function(id: u32, name: &str, code_block: CodeBlock) -> Function {
    let mut nv = bimap::BiHashMap::new();
    nv.insert((0u32, 3i32), (0u32, String::from("kStateIdle")));
    nv.insert((0u32, 4i32), (0u32, String::from("kStateRun")));
    nv.insert((1u32, -1i32), (1u32, String::from("kNone")));
    Function::new(id, 12, b"ii".to_vec(), String::from(name), code_block, nv)
}

fn sample_db() -> GameDB {
    GameDB::new(vec![
        sample_function(0x12, "setState", CodeBlock::NoBlock),
        sample_function(0x30, "beginBlock", CodeBlock::Begin),
        sample_function(0x31, "jumpEntry", CodeBlock::BeginJumpEntry),
    ])
}

#[test]
fn find_by_id_hits_matching_record() {
    let db = sample_db();
    let f = db.find_by_id(0x30).unwrap();
    assert_eq!(f.id, 0x30);
    assert_eq!(f.name, "beginBlock");
}

#[test]
fn find_by_id_miss_is_unknown_function_in_hex() {
    let db = sample_db();
    match db.find_by_id(42) {
        Err(BBScriptError::UnknownFunction(s)) => assert_eq!(s, "0x2A"),
        other => panic!("expected UnknownFunction, got {:?}", other),
    }
}

#[test]
fn find_by_name_hits_matching_record() {
    let db = sample_db();
    let f = db.find_by_name("jumpEntry").unwrap();
    assert_eq!(f.id, 0x31);
}

#[test]
fn find_by_name_miss_is_unknown_function_with_name() {
    let db = sample_db();
    match db.find_by_name("missing") {
        Err(BBScriptError::UnknownFunction(s)) => assert_eq!(s, "missing"),
        other => panic!("expected UnknownFunction, got {:?}", other),
    }
}

#[test]
fn find_by_id_returns_first_match_in_declaration_order() {
    let db = GameDB::new(vec![
        sample_function(7, "first", CodeBlock::NoBlock),
        sample_function(7, "second", CodeBlock::NoBlock),
    ]);
    assert_eq!(db.find_by_id(7).unwrap().name, "first");
}

#[test]
fn find_lookups_are_inverse_on_unique_fixture() {
    let db = sample_db();
    let by_id = db.find_by_id(0x12).unwrap();
    assert_eq!(db.find_by_name(&by_id.name.clone()).unwrap().id, 0x12);
    let by_name = db.find_by_name("beginBlock").unwrap();
    assert_eq!(db.find_by_id(by_name.id).unwrap().name, "beginBlock");
}

#[test]
fn get_value_of_bound_name() {
    let f = sample_function(1, "f", CodeBlock::NoBlock);
    assert_eq!(f.get_value((0, String::from("kStateRun"))).unwrap(), 4);
    assert_eq!(f.get_value((1, String::from("kNone"))).unwrap(), -1);
}

#[test]
fn get_value_of_unbound_name_fails_with_slot_and_name() {
    let f = sample_function(1, "f", CodeBlock::NoBlock);
    match f.get_value((2, String::from("kStateIdle"))) {
        Err(BBScriptError::NoAssociatedValue(slot, name)) => {
            assert_eq!(slot, "2");
            assert_eq!(name, "kStateIdle");
        }
        other => panic!("expected NoAssociatedValue, got {:?}", other),
    }
}

#[test]
fn get_name_of_bound_value() {
    let f = sample_function(1, "f", CodeBlock::NoBlock);
    assert_eq!(f.get_name((0, 3)), Some(String::from("kStateIdle")));
}

#[test]
fn get_name_of_unbound_value_is_none() {
    let f = sample_function(1, "f", CodeBlock::NoBlock);
    assert_eq!(f.get_name((0, 99)), None);
    assert_eq!(f.get_name((5, 3)), None);
}

#[test]
fn value_name_round_trip() {
    let f = sample_function(1, "f", CodeBlock::NoBlock);
    let v = f.get_value((0, String::from("kStateIdle"))).unwrap();
    assert_eq!(f.get_name((0, v)), Some(String::from("kStateIdle")));
}

#[test]
fn instruction_name_of_named_record() {
    let f = sample_function(9, "setState", CodeBlock::NoBlock);
    assert_eq!(f.instruction_name(), "setState");
}

#[test]
fn instruction_name_of_unnamed_record_is_synthetic_and_non_empty() {
    let f = sample_function(57, "", CodeBlock::NoBlock);
    assert_eq!(f.instruction_name(), "Unknown57");
    assert!(!f.instruction_name().is_empty());
}

#[test]
fn is_jump_entry_only_for_begin_jump_entry() {
    let db = sample_db();
    assert!(db.find_by_id(0x31).unwrap().is_jump_entry());
    assert!(!db.find_by_id(0x30).unwrap().is_jump_entry());
    assert!(!db.find_by_id(0x12).unwrap().is_jump_entry());
}

#[test]
fn empty_database_lookups_fail() {
    let db = GameDB::new(Vec::new());
    assert!(db.find_by_id(0).is_err());
    assert!(db.find_by_name("").is_err());
}
