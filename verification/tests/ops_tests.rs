use shm_kv::ops::{check_deleted_response, check_read_response, Operation, ReadCheck};

#[test]
fn read_responses_classify() {
    assert_eq!(check_read_response(&Operation::Value(49), 49), ReadCheck::Correct);
    assert_eq!(check_read_response(&Operation::Value(50), 49), ReadCheck::WrongValue);
    assert_eq!(check_read_response(&Operation::Fail, 49), ReadCheck::Missing);
    assert_eq!(check_read_response(&Operation::Insert(1, 2), 49), ReadCheck::Protocol);
    assert_eq!(check_read_response(&Operation::Empty, 49), ReadCheck::Protocol);
}

#[test]
fn deleted_responses_classify() {
    assert_eq!(check_deleted_response(&Operation::Fail, 49), ReadCheck::Correct);
    assert_eq!(check_deleted_response(&Operation::Value(49), 49), ReadCheck::WrongValue);
    assert_eq!(check_deleted_response(&Operation::Value(3), 49), ReadCheck::Correct);
    assert_eq!(check_deleted_response(&Operation::Quit, 49), ReadCheck::Protocol);
}
