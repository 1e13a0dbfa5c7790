use render_wgpu::{rocks, terrain, update};

#[test]
fn splitmix64_matches_reference_sequence() {
    let mut s = 0u64;
    assert_eq!(update::splitmix64(&mut s), 0xe220_a839_7b1d_cdaf);
    assert_eq!(s, 0x9e37_79b9_7f4a_7c15);
    assert_eq!(update::splitmix64(&mut s), 0x6e78_9e6a_a1b9_65f4);
}

#[test]
fn generators_agree() {
    let mut a = 42u64;
    let mut b = 42u64;
    let mut c = rocks::splitmix(42);
    for _ in 0..16 {
        let x = update::splitmix64(&mut a);
        assert_eq!(terrain::next_u64(&mut b), x);
        assert_eq!(c.next(), x);
    }
    assert_eq!(a, b);
}

#[test]
fn terrain_seed_advances_once() {
    assert_eq!(terrain::splitmix(0), 0x9e37_79b9_7f4a_7c15);
    assert_eq!(terrain::splitmix(u64::MAX), 0x9e37_79b9_7f4a_7c14);
}
