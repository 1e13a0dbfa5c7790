use render_wgpu::passes::BatchCounter;

#[test]
fn counts_key_changes_per_pass() {
    let mut c = BatchCounter::new();
    c.batch_begin();
    c.batch_add_key_ids(1, 2, 3);
    c.batch_add_key_ids(1, 2, 3);
    c.batch_add_key_ids(2, 2, 2);
    c.batch_add_key_ids(1, 2, 3);
    c.batch_end();
    assert_eq!(c.last_count(), 3);
    c.batch_begin();
    assert_eq!(c.last_count(), 3);
    c.batch_add_key_ids(0, 0, 0);
    c.batch_end();
    assert_eq!(c.last_count(), 1);
    c.batch_begin();
    c.batch_end();
    assert_eq!(c.last_count(), 0);
}
