use eppo_core::vcf::{record_position, subset_vcf_lines};

fn lines(texts: &[&str]) -> Vec<String> {
    texts.iter().map(|t| t.to_string()).collect()
}

#[test]
fn record_position_reads_the_second_field() {
    assert_eq!(record_position("chr1\t1043\tA\tG"), Some(1043));
    assert_eq!(record_position("chr1\t0\t."), Some(0));
    assert_eq!(record_position("chr1\tabc\t."), None);
    assert_eq!(record_position("chr1"), None);
    assert_eq!(record_position("chr1\t"), None);
    assert_eq!(record_position("chr1\t99999999999999999999999\t."), None);
}

#[test]
fn headers_are_always_kept_and_records_filtered() {
    let input = lines(&[
        "##fileformat=VCFv4.2",
        "#CHROM\tPOS\tID",
        "chr1\t1043\tA",
        "chr1\t1815\tB",
        "chr1\t1977\tC",
    ]);
    let (header, output) = subset_vcf_lines(&input, &vec![1, 2, 3, 4, 5]).unwrap();
    assert_eq!(header.len(), 2);
    assert_eq!(output.len(), 0);

    let (header, output) = subset_vcf_lines(&input, &vec![1043, 2, 3]).unwrap();
    assert_eq!(header.len(), 2);
    assert_eq!(output, lines(&["chr1\t1043\tA"]));

    let (header, output) = subset_vcf_lines(&input, &vec![1043, 1815, 1977]).unwrap();
    assert_eq!(header.len(), 2);
    assert_eq!(output.len(), 3);
}

#[test]
fn empty_position_list_keeps_every_record() {
    let input = lines(&["#header", "chr1\t10\tA", "chr1\tnot-a-number\tB"]);
    let (header, output) = subset_vcf_lines(&input, &Vec::new()).unwrap();
    assert_eq!(header.len(), 1);
    // With no positions requested, records are kept without reading their
    // position field, malformed or not.
    assert_eq!(output.len(), 2);
}

#[test]
fn malformed_record_is_reported_with_its_line() {
    let input = lines(&["#header", "chr1\t10\tA", "chr1\tbogus\tB"]);
    let err = subset_vcf_lines(&input, &vec![10]).unwrap_err();
    assert_eq!(err.line_index, 2);
    assert_eq!(err.line, "chr1\tbogus\tB");
}
