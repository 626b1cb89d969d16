use replicon_rules::rules::write_replication_id;
use replicon_rules::rules::AppReplicationExt;
use replicon_rules::rules::ReplicationRules;
use replicon_rules::wire::Cursor;
use replicon_rules::wire::ReplicationError;
use replicon_rules::ComponentId;
use replicon_rules::ReplicationId;

fn written(value: usize) -> Vec<u8> {
    let mut out = Vec::new();
    assert_eq!(write_replication_id(ReplicationId(value), &mut out), Ok(()));
    out
}

fn read(bytes: &[u8]) -> (Result<u64, ReplicationError>, usize) {
    let mut cursor = Cursor::new(bytes.to_vec());
    let value = cursor.read_u64();
    (value, cursor.position())
}

#[test]
fn small_integers_take_one_byte() {
    assert_eq!(written(0), vec![0]);
    assert_eq!(written(1), vec![1]);
    assert_eq!(written(250), vec![250]);
}

#[test]
fn integers_up_to_sixteen_bits_take_three_bytes() {
    assert_eq!(written(251), vec![251, 251, 0]);
    assert_eq!(written(0x1234), vec![251, 0x34, 0x12]);
    assert_eq!(written(0xffff), vec![251, 0xff, 0xff]);
}

#[test]
fn integers_up_to_thirty_two_bits_take_five_bytes() {
    assert_eq!(written(0x1_0000), vec![252, 0, 0, 1, 0]);
    assert_eq!(written(0x1234_5678), vec![252, 0x78, 0x56, 0x34, 0x12]);
    assert_eq!(written(0xffff_ffff), vec![252, 0xff, 0xff, 0xff, 0xff]);
}

#[test]
fn larger_integers_take_nine_bytes() {
    assert_eq!(written(0x1_0000_0000), vec![253, 0, 0, 0, 0, 1, 0, 0, 0]);
    assert_eq!(
        written(0x0102_0304_0506_0708),
        vec![253, 8, 7, 6, 5, 4, 3, 2, 1]
    );
    assert_eq!(written(usize::MAX), vec![253, 255, 255, 255, 255, 255, 255, 255, 255]);
}

#[test]
fn writing_appends_to_what_is_there() {
    let mut out = vec![9, 9];
    assert_eq!(write_replication_id(ReplicationId(300), &mut out), Ok(()));
    assert_eq!(out, vec![9, 9, 251, 44, 1]);
}

#[test]
fn read_u64_reads_each_width() {
    assert_eq!(read(&[0]), (Ok(0), 1));
    assert_eq!(read(&[250, 7]), (Ok(250), 1));
    assert_eq!(read(&[251, 0x34, 0x12, 7]), (Ok(0x1234), 3));
    assert_eq!(read(&[252, 0x78, 0x56, 0x34, 0x12]), (Ok(0x1234_5678), 5));
    assert_eq!(
        read(&[253, 8, 7, 6, 5, 4, 3, 2, 1, 0]),
        (Ok(0x0102_0304_0506_0708), 9)
    );
}

#[test]
fn read_u64_accepts_a_wider_form_of_a_small_integer() {
    assert_eq!(read(&[251, 5, 0]), (Ok(5), 3));
    assert_eq!(read(&[253, 5, 0, 0, 0, 0, 0, 0, 0]), (Ok(5), 9));
}

#[test]
fn read_u64_rejects_short_input_and_stays() {
    assert_eq!(read(&[]), (Err(ReplicationError::Decoding), 0));
    assert_eq!(read(&[251]), (Err(ReplicationError::Decoding), 0));
    assert_eq!(read(&[251, 1]), (Err(ReplicationError::Decoding), 0));
    assert_eq!(read(&[252, 1, 2, 3]), (Err(ReplicationError::Decoding), 0));
    assert_eq!(read(&[253, 1, 2, 3, 4, 5, 6, 7]), (Err(ReplicationError::Decoding), 0));
}

#[test]
fn read_u64_rejects_the_markers_above_253() {
    assert_eq!(read(&[254, 0, 0, 0, 0, 0, 0, 0, 0, 0, 0, 0, 0, 0, 0, 0, 0]), (Err(ReplicationError::Decoding), 0));
    assert_eq!(read(&[255, 0, 0]), (Err(ReplicationError::Decoding), 0));
}

#[test]
fn read_u64_round_trips_what_was_written() {
    let values: [usize; 9] = [0, 250, 251, 0xffff, 0x1_0000, 0xffff_ffff, 0x1_0000_0000, usize::MAX - 1, usize::MAX];
    for value in values {
        let bytes = written(value);
        assert_eq!(read(&bytes), (Ok(value as u64), bytes.len()));
    }
}

#[test]
fn read_u64_continues_where_the_last_read_ended() {
    let mut cursor = Cursor::new(vec![1, 251, 0, 1, 3]);
    assert_eq!(cursor.read_u64(), Ok(1));
    assert_eq!(cursor.read_u64(), Ok(256));
    assert_eq!(cursor.read_u64(), Ok(3));
    assert_eq!(cursor.position(), 5);
    assert_eq!(cursor.read_u64(), Err(ReplicationError::Decoding));
    assert_eq!(cursor.position(), 5);
}

fn three_rules() -> ReplicationRules {
    let mut rules = ReplicationRules::new(ComponentId(0));
    rules.replicate(ComponentId(1), ComponentId(2));
    rules.replicate(ComponentId(3), ComponentId(4));
    rules.replicate(ComponentId(5), ComponentId(6));
    rules
}

#[test]
fn read_replication_id_finds_registered_ordinals() {
    let rules = three_rules();
    let mut cursor = Cursor::new(vec![2, 0, 251, 1, 0]);
    assert_eq!(rules.read_replication_id(&mut cursor), Ok(ReplicationId(2)));
    assert_eq!(cursor.position(), 1);
    assert_eq!(rules.read_replication_id(&mut cursor), Ok(ReplicationId(0)));
    assert_eq!(rules.read_replication_id(&mut cursor), Ok(ReplicationId(1)));
    assert_eq!(cursor.position(), 5);
}

#[test]
fn read_replication_id_reports_an_unknown_ordinal() {
    let rules = three_rules();
    let mut cursor = Cursor::new(vec![3]);
    assert_eq!(
        rules.read_replication_id(&mut cursor),
        Err(ReplicationError::UnknownOrdinal(3))
    );
    assert_eq!(cursor.position(), 0);
    let mut cursor = Cursor::new(vec![253, 255, 255, 255, 255, 255, 255, 255, 255]);
    assert_eq!(
        rules.read_replication_id(&mut cursor),
        Err(ReplicationError::UnknownOrdinal(u64::MAX))
    );
    assert_eq!(cursor.position(), 0);
}

#[test]
fn read_replication_id_reports_malformed_input() {
    let rules = three_rules();
    let mut cursor = Cursor::new(vec![]);
    assert_eq!(rules.read_replication_id(&mut cursor), Err(ReplicationError::Decoding));
    let mut cursor = Cursor::new(vec![252, 1]);
    assert_eq!(rules.read_replication_id(&mut cursor), Err(ReplicationError::Decoding));
    assert_eq!(cursor.position(), 0);
}

#[test]
fn every_ordinal_is_unknown_to_empty_rules() {
    let rules = ReplicationRules::new(ComponentId(0));
    let mut cursor = Cursor::new(vec![0]);
    assert_eq!(
        rules.read_replication_id(&mut cursor),
        Err(ReplicationError::UnknownOrdinal(0))
    );
}

#[test]
fn replication_id_round_trips() {
    let rules = three_rules();
    for ordinal in 0..3 {
        let bytes = written(ordinal);
        let mut cursor = Cursor::new(bytes);
        assert_eq!(rules.read_replication_id(&mut cursor), Ok(ReplicationId(ordinal)));
    }
}
