use starry_task::vm_stat::ProcessVmStat;

#[test]
fn a_new_address_space_is_empty() {
    let stat = ProcessVmStat::default();
    assert_eq!(stat.vss_pages(), 0);
    assert_eq!(stat.peak_vss_pages(), 0);
    assert_eq!(stat.peak_rss_pages(), 0);
}

#[test]
fn unmapping_restores_the_size_and_keeps_the_peaks() {
    let mut stat = ProcessVmStat::new();
    stat.on_map(10);
    stat.on_map(5);
    assert_eq!(stat.vss_pages(), 15);
    stat.on_unmap(5);
    assert_eq!(stat.vss_pages(), 10);
    assert_eq!(stat.peak_vss_pages(), 15);
    assert_eq!(stat.peak_rss_pages(), 15);
    stat.on_map(3);
    assert_eq!(stat.peak_vss_pages(), 15);
}

#[test]
fn one_unmapping_too_many_reads_as_zero() {
    let mut stat = ProcessVmStat::new();
    stat.on_map(2);
    stat.on_unmap(5);
    assert_eq!(stat.vss_pages(), 0);
    // The balance is -3, so the next mapping is counted from there, while the
    // marks are raised from what was read.
    stat.on_map(4);
    assert_eq!(stat.vss_pages(), 1);
    assert_eq!(stat.peak_vss_pages(), 4);
}

#[test]
fn a_fresh_image_starts_with_new_marks() {
    let mut stat = ProcessVmStat::new();
    stat.on_map(100);
    stat.on_clear();
    assert_eq!(stat.vss_pages(), 0);
    assert_eq!(stat.peak_vss_pages(), 0);
    assert_eq!(stat.peak_rss_pages(), 0);
}

#[test]
fn a_copy_starts_at_the_size_that_was_copied() {
    let mut parent = ProcessVmStat::new();
    parent.on_map(100);
    parent.on_unmap(60);
    let mut child = ProcessVmStat::new();
    child.seed_from(&parent);
    assert_eq!(child.vss_pages(), 40);
    assert_eq!(child.peak_vss_pages(), 40);
    assert_eq!(child.peak_rss_pages(), 40);
    assert_eq!(parent.peak_vss_pages(), 100);
}
