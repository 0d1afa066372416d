use line_endings::stats::{dominant_of, FileStats, FileStatsAggregate, LineSep};

#[test]
fn scan_three_way_tie() {
    let stats = FileStats::scan("f", b"a\r\nb\nc\rd");
    assert_eq!(stats.crlf, 1);
    assert_eq!(stats.lf, 1);
    assert_eq!(stats.cr, 1);
    assert_eq!(stats.lines, 3);
    assert!(stats.max.is_none());
}

#[test]
fn scan_counts_sum_to_lines() {
    let contents: Vec<&[u8]> = vec![
        b"",
        b"\n",
        b"\r",
        b"\r\n",
        b"abc",
        b"a\nb\r\nc\rd\n",
        b"\r\r\n\n\r",
        b"x\ny\nz\n",
    ];
    for content in contents {
        let stats = FileStats::scan("f", content);
        assert_eq!(stats.lf + stats.crlf + stats.cr, stats.lines);
    }
}

#[test]
fn scan_crlf_is_one_terminator() {
    let stats = FileStats::scan("f", b"a\r\nb");
    assert_eq!(stats.crlf, 1);
    assert_eq!(stats.lf, 0);
    assert_eq!(stats.cr, 0);
    assert_eq!(stats.lines, 1);
    assert_eq!(stats.max, Some(LineSep::CrLf));
}

#[test]
fn scan_lone_cr_at_end() {
    let stats = FileStats::scan("f", b"a\r");
    assert_eq!(stats.cr, 1);
    assert_eq!(stats.crlf, 0);
    assert_eq!(stats.lf, 0);
    assert_eq!(stats.max, Some(LineSep::Cr));
}

#[test]
fn scan_keeps_name() {
    let stats = FileStats::scan("some/file.txt", b"\n");
    assert_eq!(stats.name, "some/file.txt");
}

#[test]
fn dominant_absent_on_all_zero() {
    assert!(dominant_of(0, 0, 0).is_none());
}

#[test]
fn dominant_absent_on_two_way_tie() {
    assert!(dominant_of(2, 2, 1).is_none());
    assert!(dominant_of(2, 1, 2).is_none());
    assert!(dominant_of(1, 2, 2).is_none());
    assert!(dominant_of(3, 3, 3).is_none());
}

#[test]
fn dominant_strict_majority() {
    assert_eq!(dominant_of(3, 1, 2), Some(LineSep::Lf));
    assert_eq!(dominant_of(1, 3, 2), Some(LineSep::CrLf));
    assert_eq!(dominant_of(1, 2, 3), Some(LineSep::Cr));
}

#[test]
fn update_recomputes_running_dominant() {
    let mut stats = FileStats::new("f");
    stats.update(LineSep::Lf);
    assert_eq!(stats.max, Some(LineSep::Lf));
    stats.update(LineSep::Cr);
    assert!(stats.max.is_none());
    stats.update(LineSep::Cr);
    assert_eq!(stats.max, Some(LineSep::Cr));
    assert_eq!(stats.lines, 3);
}

#[test]
fn aggregate_sums_per_file_counts() {
    let a = FileStats::scan("a", b"x\ny\n");
    let b = FileStats::scan("b", b"x\r\ny\rz\n");
    let agg = FileStatsAggregate::fold(FileStatsAggregate::new(), a);
    let agg = FileStatsAggregate::fold(agg, b);
    assert_eq!(agg.lf, 3);
    assert_eq!(agg.crlf, 1);
    assert_eq!(agg.cr, 1);
    assert_eq!(agg.lines, 5);
    assert_eq!(agg.max(), Some(LineSep::Lf));
    assert_eq!(agg.stats.len(), 2);
    assert_eq!(agg.stats[0].name, "a");
    assert_eq!(agg.stats[1].name, "b");
}

#[test]
fn aggregate_fold_order_independent_counts() {
    let a = FileStats::scan("a", b"x\ny\nz\n");
    let b = FileStats::scan("b", b"x\r\ny\r");
    let one = FileStatsAggregate::fold(
        FileStatsAggregate::fold(FileStatsAggregate::new(), FileStats::scan("a", b"x\ny\nz\n")),
        b,
    );
    let two = FileStatsAggregate::fold(
        FileStatsAggregate::fold(FileStatsAggregate::new(), FileStats::scan("b", b"x\r\ny\r")),
        a,
    );
    assert_eq!(one.lf, two.lf);
    assert_eq!(one.crlf, two.crlf);
    assert_eq!(one.cr, two.cr);
    assert_eq!(one.lines, two.lines);
    assert_eq!(one.max(), two.max());
}

#[test]
fn aggregate_dominant_tie_absent() {
    let a = FileStats::scan("a", b"x\ny\n");
    let b = FileStats::scan("b", b"x\r\ny\r\n");
    let agg = FileStatsAggregate::fold(FileStatsAggregate::new(), a);
    let agg = FileStatsAggregate::fold(agg, b);
    assert!(agg.max().is_none());
}

#[test]
fn labels() {
    assert_eq!(LineSep::Lf.label(), "LF");
    assert_eq!(LineSep::CrLf.label(), "CRLF");
    assert_eq!(LineSep::Cr.label(), "CR");
}
