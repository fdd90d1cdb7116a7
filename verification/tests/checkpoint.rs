use monopolez::simulation::checkpoint::{CheckpointError, split_checkpoint};

#[test]
fn a_checkpoint_splits_into_header_records_and_an_unfinished_tail() {
    let bytes = b"{\"h\":1}\n{\"r\":1}\n{\"r\":2}\n{\"r\":";
    let layout = split_checkpoint(bytes).unwrap();
    assert_eq!(layout.header_end, 8);
    assert_eq!(layout.record_ends, vec![16, 24]);
    assert_eq!(layout.valid_len(), 24);
    assert_eq!(layout.discarded_tail_bytes, 5);
}

#[test]
fn a_checkpoint_without_records_keeps_only_its_header() {
    let layout = split_checkpoint(b"{}\n").unwrap();
    assert_eq!((layout.header_end, layout.record_ends.len(), layout.discarded_tail_bytes), (3, 0, 0));
    assert_eq!(layout.valid_len(), 3);
}

#[test]
fn a_checkpoint_needs_a_complete_header() {
    assert_eq!(split_checkpoint(b"{\"h\":1}"), Err(CheckpointError::IncompleteHeader));
    assert_eq!(split_checkpoint(b""), Err(CheckpointError::IncompleteHeader));
}
