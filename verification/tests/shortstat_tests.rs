use auto_commit_msg::errors::PipelineError;
use auto_commit_msg::shortstat::parse_shortstat;

#[test]
fn insertions_only() {
    let cc = parse_shortstat("2 files changed, 10 insertions(+)").unwrap();
    assert_eq!(cc.insertions, 10);
    assert_eq!(cc.deletions, 0);
}

#[test]
fn deletions_only() {
    let cc = parse_shortstat("1 file changed, 3 deletions(-)").unwrap();
    assert_eq!(cc.insertions, 0);
    assert_eq!(cc.deletions, 3);
}

#[test]
fn both_clauses() {
    let cc = parse_shortstat("1 file changed, 5 insertions(+), 2 deletions(-)").unwrap();
    assert_eq!(cc.insertions, 5);
    assert_eq!(cc.deletions, 2);
}

#[test]
fn both_clauses_reversed() {
    let cc = parse_shortstat("1 file changed, 2 deletions(-), 5 insertions(+)").unwrap();
    assert_eq!(cc.insertions, 5);
    assert_eq!(cc.deletions, 2);
}

#[test]
fn no_clauses() {
    let cc = parse_shortstat("1 file changed").unwrap();
    assert_eq!(cc.insertions, 0);
    assert_eq!(cc.deletions, 0);
}

#[test]
fn empty_summary() {
    let cc = parse_shortstat("").unwrap();
    assert_eq!(cc.insertions, 0);
    assert_eq!(cc.deletions, 0);
}

#[test]
fn singular_words() {
    let cc = parse_shortstat("1 file changed, 1 insertion(+), 1 deletion(-)").unwrap();
    assert_eq!(cc.insertions, 1);
    assert_eq!(cc.deletions, 1);
}

#[test]
fn trailing_newline() {
    let cc = parse_shortstat(" 3 files changed, 120 insertions(+), 7 deletions(-)\n").unwrap();
    assert_eq!(cc.insertions, 120);
    assert_eq!(cc.deletions, 7);
}

#[test]
fn leading_zeros() {
    let cc = parse_shortstat("1 file changed, 007 insertions(+)").unwrap();
    assert_eq!(cc.insertions, 7);
}

#[test]
fn largest_count_fits() {
    let cc = parse_shortstat("1 file changed, 4294967295 insertions(+)").unwrap();
    assert_eq!(cc.insertions, u32::MAX);
}

#[test]
fn count_too_large() {
    let r = parse_shortstat("1 file changed, 4294967296 insertions(+)");
    assert_eq!(r.unwrap_err(), PipelineError::CountOutOfRange);
}

#[test]
fn huge_count_rejected() {
    let r = parse_shortstat("1 file changed, 99999999999999999999 deletions(-)");
    assert_eq!(r.unwrap_err(), PipelineError::CountOutOfRange);
}

#[test]
fn unrelated_text_finds_nothing() {
    let cc = parse_shortstat("nothing to report here").unwrap();
    assert_eq!(cc.insertions, 0);
    assert_eq!(cc.deletions, 0);
}
