use vstd::prelude::*;
use crate::filter::{
    decimal, filter_output, line_matches, line_record, records, render, MatchConfig,
};
use crate::lines::lines_of;
use crate::pattern::pattern_matches;

verus! {

/// `rec` begins with the 1-based number of line `index` followed by `:`.
pub open spec fn starts_with_line_number(rec: Seq<char>, index: nat) -> bool {
    let prefix = decimal(index + 1) + seq![':'];
    prefix.len() <= rec.len() && rec.subrange(0, prefix.len() as int) == prefix
}

/// `rec` begins with the number of one of `lines`, followed by `:`.
pub open spec fn numbered_by_some_line(rec: Seq<char>, lines: Seq<Seq<char>>) -> bool {
    exists|i: int| 0 <= i < lines.len() && #[trigger] starts_with_line_number(rec, i as nat)
}

/// In full-text mode, with a non-empty pattern, a non-empty line is written
/// exactly when whether the pattern matches it differs from `invert_match`,
/// and what is written is the line itself (after its number, if asked for).
pub proof fn law_full_text_selection(pattern: Seq<char>, cfg: MatchConfig, index: nat, line: Seq<char>)
    requires
        pattern.len() > 0,
        !cfg.only_matching,
        line.len() > 0,
    ensures
        line_record(pattern, cfg, index, line) is Some <==> (pattern_matches(
            pattern,
            cfg.case_insensitive,
            line,
        ) != cfg.invert_match),
        line_record(pattern, cfg, index, line) matches Some(r) ==> r == render(index, line, cfg),
{
}

proof fn lemma_empty_pattern_records(cfg: MatchConfig, lines: Seq<Seq<char>>)
    requires
        !cfg.invert_match,
        !cfg.line_numbers,
        !cfg.only_matching,
    ensures
        records(Seq::empty(), cfg, lines) == lines.filter(|l: Seq<char>| l.len() > 0),
    decreases lines.len(),
{
    reveal(Seq::filter);
    if lines.len() > 0 {
        lemma_empty_pattern_records(cfg, lines.drop_last());
    }
}

/// With the empty pattern and neither inversion, numbering nor only-matching,
/// the output is the input's lines, in order, without the empty ones.
pub proof fn law_empty_pattern_keeps_lines(cfg: MatchConfig, content: Seq<char>)
    requires
        !cfg.invert_match,
        !cfg.line_numbers,
        !cfg.only_matching,
    ensures
        filter_output(Seq::empty(), cfg, content) == lines_of(content).filter(
            |l: Seq<char>| l.len() > 0,
        ),
{
    lemma_empty_pattern_records(cfg, lines_of(content));
}

proof fn lemma_empty_pattern_inverted_records(cfg: MatchConfig, lines: Seq<Seq<char>>)
    requires
        cfg.invert_match,
    ensures
        records(Seq::empty(), cfg, lines) == Seq::<Seq<char>>::empty(),
    decreases lines.len(),
{
    if lines.len() > 0 {
        lemma_empty_pattern_inverted_records(cfg, lines.drop_last());
    }
}

/// With the empty pattern and inversion, nothing is written.
pub proof fn law_empty_pattern_inverted_is_empty(cfg: MatchConfig, content: Seq<char>)
    requires
        cfg.invert_match,
    ensures
        filter_output(Seq::empty(), cfg, content) == Seq::<Seq<char>>::empty(),
{
    lemma_empty_pattern_inverted_records(cfg, lines_of(content));
}

proof fn lemma_numbered_records(pattern: Seq<char>, cfg: MatchConfig, lines: Seq<Seq<char>>)
    requires
        cfg.line_numbers,
    ensures
        forall|k: int|
            0 <= k < records(pattern, cfg, lines).len() ==> numbered_by_some_line(
                #[trigger] records(pattern, cfg, lines)[k],
                lines,
            ),
    decreases lines.len(),
{
    if lines.len() > 0 {
        let prev = lines.drop_last();
        lemma_numbered_records(pattern, cfg, prev);
        let last = (lines.len() - 1) as nat;
        let rs = records(pattern, cfg, lines);
        assert forall|k: int| 0 <= k < rs.len() implies numbered_by_some_line(
            #[trigger] rs[k],
            lines,
        ) by {
            if k < records(pattern, cfg, prev).len() {
                assert(numbered_by_some_line(records(pattern, cfg, prev)[k], prev));
                let i = choose|i: int|
                    0 <= i < prev.len() && #[trigger] starts_with_line_number(
                        records(pattern, cfg, prev)[k],
                        i as nat,
                    );
                assert(rs[k] == records(pattern, cfg, prev)[k]);
                assert(starts_with_line_number(rs[k], i as nat));
            } else {
                let r = line_record(pattern, cfg, last, lines.last())->0;
                let prefix = decimal(last + 1) + seq![':'];
                assert(rs[k] == r);
                assert(r.subrange(0, prefix.len() as int) =~= prefix);
                assert(starts_with_line_number(rs[k], last));
            }
        }
    }
}

/// With line numbers asked for, every record begins with the 1-based number
/// of some input line followed by `:`.
pub proof fn law_records_are_numbered(pattern: Seq<char>, cfg: MatchConfig, content: Seq<char>)
    requires
        cfg.line_numbers,
    ensures
        forall|k: int|
            0 <= k < filter_output(pattern, cfg, content).len() ==> numbered_by_some_line(
                #[trigger] filter_output(pattern, cfg, content)[k],
                lines_of(content),
            ),
{
    lemma_numbered_records(pattern, cfg, lines_of(content));
}

/// The output depends on the pattern, the settings and the content alone: two
/// searches with the same inputs write the same records.
pub proof fn law_same_inputs_same_output(
    pattern: Seq<char>,
    cfg: MatchConfig,
    content: Seq<char>,
    first: Seq<Seq<char>>,
    second: Seq<Seq<char>>,
)
    requires
        first == filter_output(pattern, cfg, content),
        second == filter_output(pattern, cfg, content),
    ensures
        first == second,
{
}

} // verus!
