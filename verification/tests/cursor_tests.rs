use tumblr::cursor::{cursor_round_trip, Cursor, NodeType};
use tumblr::errors::ApiError;

#[test]
fn encode_produces_expected_wire_string() {
    let c = Cursor {
        _rowid: 1,
        ty: NodeType::User,
    };
    assert_eq!(c.encode(), "eyJfcm93aWQiOjEsInR5IjoiVXNlciJ9");

    let c = Cursor {
        _rowid: 0,
        ty: NodeType::User,
    };
    assert_eq!(c.encode(), "eyJfcm93aWQiOjAsInR5IjoiVXNlciJ9");

    let c = Cursor {
        _rowid: 3,
        ty: NodeType::Blog,
    };
    assert_eq!(c.encode(), "eyJfcm93aWQiOjMsInR5IjoiQmxvZyJ9");

    let c = Cursor {
        _rowid: 42,
        ty: NodeType::Post,
    };
    assert_eq!(c.encode(), "eyJfcm93aWQiOjQyLCJ0eSI6IlBvc3QifQ==");
}

#[test]
fn decode_accepts_expected_wire_string() {
    assert_eq!(
        Cursor::decode("eyJfcm93aWQiOjEsInR5IjoiVXNlciJ9"),
        Ok(Cursor {
            _rowid: 1,
            ty: NodeType::User,
        })
    );
    assert_eq!(
        Cursor::decode("eyJfcm93aWQiOjIxNDc0ODM2NDcsInR5IjoiUG9zdCJ9"),
        Ok(Cursor {
            _rowid: 2147483647,
            ty: NodeType::Post,
        })
    );
}

#[test]
fn round_trip_over_many_cursors() {
    for rowid in [0, 1, 2, 9, 10, 99, 100, 4096, 123456789, 2147483647] {
        for ty in [NodeType::User, NodeType::Blog, NodeType::Post] {
            let c = Cursor { _rowid: rowid, ty };
            let wire = c.encode();
            assert_eq!(Cursor::decode(&wire), Ok(c));
            assert_eq!(cursor_round_trip(c), Ok(c));
        }
    }
}

#[test]
fn decode_rejects_text_that_is_not_base64() {
    assert_eq!(Cursor::decode("not base64!!!"), Err(ApiError::InvalidCursor));
    assert_eq!(Cursor::decode("????"), Err(ApiError::InvalidCursor));
}

#[test]
fn decode_rejects_empty_string() {
    assert_eq!(Cursor::decode(""), Err(ApiError::InvalidCursor));
}

#[test]
fn decode_rejects_base64_of_unrelated_bytes() {
    // "hello"
    assert_eq!(Cursor::decode("aGVsbG8="), Err(ApiError::InvalidCursor));
}

#[test]
fn decode_rejects_negative_ordering_key() {
    // {"_rowid":-1,"ty":"User"}
    assert_eq!(
        Cursor::decode("eyJfcm93aWQiOi0xLCJ0eSI6IlVzZXIifQ=="),
        Err(ApiError::InvalidCursor)
    );
}

#[test]
fn decode_rejects_leading_zero_key() {
    // {"_rowid":01,"ty":"User"}
    assert_eq!(
        Cursor::decode("eyJfcm93aWQiOjAxLCJ0eSI6IlVzZXIifQ=="),
        Err(ApiError::InvalidCursor)
    );
}

#[test]
fn decode_rejects_unknown_type_tag() {
    // {"_rowid":1,"ty":"Frob"}
    assert_eq!(
        Cursor::decode("eyJfcm93aWQiOjEsInR5IjoiRnJvYiJ9"),
        Err(ApiError::InvalidCursor)
    );
}

#[test]
fn decode_rejects_key_beyond_i32() {
    // {"_rowid":2147483648,"ty":"User"}
    assert_eq!(
        Cursor::decode("eyJfcm93aWQiOjIxNDc0ODM2NDgsInR5IjoiVXNlciJ9"),
        Err(ApiError::InvalidCursor)
    );
}

#[test]
fn decode_rejects_reordered_fields() {
    // {"ty":"User","_rowid":1}
    assert_eq!(
        Cursor::decode("eyJ0eSI6IlVzZXIiLCJfcm93aWQiOjF9"),
        Err(ApiError::InvalidCursor)
    );
}

#[test]
fn decode_rejects_trailing_bytes() {
    // {"_rowid":1,"ty":"User"} followed by a space
    assert_eq!(
        Cursor::decode("eyJfcm93aWQiOjEsInR5IjoiVXNlciJ9IA=="),
        Err(ApiError::InvalidCursor)
    );
}
