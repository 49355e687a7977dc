use auto_diff::files::{file_text, FileReadError};
use auto_diff::lints::lint_lvl;
use auto_diff::statement_owner::{compute_owners, BasicBlockId, StatementId, StatementOwnerCache};
use auto_diff::upcast::Upcast;

fn block(stmts: &[u32]) -> Vec<StatementId> {
    stmts.iter().map(|stmt| StatementId(*stmt)).collect()
}

#[test]
fn owners_of_disjoint_blocks() {
    let blocks = vec![block(&[0, 3]), block(&[]), block(&[1, 4])];
    let owners = compute_owners(6, &blocks);
    assert_eq!(
        owners,
        vec![
            Some(BasicBlockId(0)),
            Some(BasicBlockId(2)),
            None,
            Some(BasicBlockId(0)),
            Some(BasicBlockId(2)),
            None,
        ]
    );
}

#[test]
fn last_block_that_lists_a_statement_owns_it() {
    let blocks = vec![block(&[0, 1]), block(&[1, 1]), block(&[0])];
    let owners = compute_owners(2, &blocks);
    assert_eq!(owners, vec![Some(BasicBlockId(2)), Some(BasicBlockId(1))]);
}

#[test]
fn owners_without_blocks_or_statements() {
    assert_eq!(compute_owners(3, &Vec::new()), vec![None, None, None]);
    assert_eq!(compute_owners(0, &vec![block(&[]), block(&[])]), Vec::new());
}

#[test]
fn cache_computes_once_until_invalidated() {
    let mut cache = StatementOwnerCache::new(3);
    assert_eq!(cache.stmt_count, 3);
    let first = vec![block(&[0]), block(&[2])];
    assert_eq!(cache.compute(&first), &vec![Some(BasicBlockId(0)), None, Some(BasicBlockId(1))]);
    let changed = vec![block(&[1]), block(&[0, 2])];
    // not invalidated: the kept owners come back
    assert_eq!(
        cache.compute(&changed),
        &vec![Some(BasicBlockId(0)), None, Some(BasicBlockId(1))]
    );
    cache.invalidate();
    assert_eq!(cache.stmt_count, 3);
    assert_eq!(
        cache.compute(&changed),
        &vec![Some(BasicBlockId(1)), Some(BasicBlockId(0)), Some(BasicBlockId(1))]
    );
}

#[test]
fn lint_level_precedence() {
    assert_eq!(lint_lvl(Some('a'), Some('g'), 'd'), ('a', false));
    assert_eq!(lint_lvl(Some('a'), None, 'd'), ('a', false));
    assert_eq!(lint_lvl(None, Some('g'), 'd'), ('g', false));
    assert_eq!(lint_lvl(None, None, 'd'), ('d', true));
    // an overwrite that repeats the default is still an overwrite
    assert_eq!(lint_lvl(None, Some('d'), 'd'), ('d', false));
}

struct Wrapped(String);

impl Upcast<str> for Wrapped {
    fn upcast(&self) -> &str {
        &self.0
    }
}

#[test]
fn upcast_to_unsized() {
    let wrapped = Wrapped(String::from("general"));
    let seen: &str = wrapped.upcast();
    assert_eq!(seen, "general");
}

#[test]
fn file_text_decodes_utf8() {
    assert_eq!(file_text(Some("module m; endmodule".as_bytes())), Ok("module m; endmodule"));
    assert_eq!(file_text(Some("Ω = 1kΩ".as_bytes())), Ok("Ω = 1kΩ"));
    assert_eq!(file_text(Some(&[])), Ok(""));
    assert_eq!(file_text(None), Err(FileReadError::NotFound));
    assert_eq!(file_text(Some(&[b'a', 0xff, b'b'])), Err(FileReadError::InvalidTextFormat));
    // a surrogate and an overlong encoding are no text
    assert_eq!(file_text(Some(&[0xed, 0xa0, 0x80])), Err(FileReadError::InvalidTextFormat));
    assert_eq!(file_text(Some(&[0xc0, 0x80])), Err(FileReadError::InvalidTextFormat));
}
