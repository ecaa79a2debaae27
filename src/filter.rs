use vstd::prelude::*;
use crate::lines::{lines_of, split_lines};
use crate::pattern::{compile, find, first_match, is_match, is_substring, pattern_compiles, pattern_matches, Matcher};

verus! {

/// How lines are matched and how selected lines are written.
#[derive(Clone, Copy, Debug, PartialEq, Eq, Structural)]
pub struct MatchConfig {
    pub case_insensitive: bool,
    pub line_numbers: bool,
    pub only_matching: bool,
    pub invert_match: bool,
}

/// Why a search could not run.
#[derive(Debug)]
pub enum GrepError {
    /// The pattern is not accepted by the regex engine.
    InvalidPattern(regex::Error),
}

pub open spec fn digit_char(d: nat) -> char {
    seq!['0', '1', '2', '3', '4', '5', '6', '7', '8', '9'][d as int]
}

/// The decimal digits of `n`, without leading zeros.
pub open spec fn decimal(n: nat) -> Seq<char>
    decreases n,
{
    if n < 10 {
        seq![digit_char(n)]
    } else {
        decimal(n / 10).push(digit_char(n % 10))
    }
}

pub open spec fn text_view(o: Option<&str>) -> Option<Seq<char>> {
    match o {
        Some(t) => Some(t@),
        None => None,
    }
}

/// The text written for a selected line: the match alone, or the whole line.
pub open spec fn emitted_text(line: Seq<char>, found: Option<Seq<char>>, cfg: MatchConfig) -> Seq<char> {
    if cfg.only_matching {
        match found {
            Some(t) => t,
            None => Seq::empty(),
        }
    } else {
        line
    }
}

/// A record as written: `text`, prefixed with the 1-based line number and `:`
/// when line numbers are asked for.
pub open spec fn render(index: nat, text: Seq<char>, cfg: MatchConfig) -> Seq<char> {
    if cfg.line_numbers {
        decimal(index + 1) + seq![':'] + text
    } else {
        text
    }
}

/// The record for the line at 0-based `index`, given whether the pattern matched
/// it and the first match found in it. A line is selected when `matched`
/// differs from `invert_match`; a selected line whose text is empty yields no
/// record.
pub open spec fn record_spec(
    line: Seq<char>,
    index: nat,
    matched: bool,
    found: Option<Seq<char>>,
    cfg: MatchConfig,
) -> Option<Seq<char>> {
    let text = emitted_text(line, found, cfg);
    if matched != cfg.invert_match && text.len() > 0 {
        Some(render(index, text, cfg))
    } else {
        None
    }
}

/// The empty pattern matches every line; any other pattern goes to the regex engine.
pub open spec fn line_matches(pattern: Seq<char>, case_insensitive: bool, line: Seq<char>) -> bool {
    pattern.len() == 0 || pattern_matches(pattern, case_insensitive, line)
}

/// The first match in `line`: the empty pattern matches the empty text.
pub open spec fn line_match_text(pattern: Seq<char>, case_insensitive: bool, line: Seq<char>) -> Option<Seq<char>> {
    if pattern.len() == 0 {
        Some(Seq::empty())
    } else {
        first_match(pattern, case_insensitive, line)
    }
}

pub open spec fn line_record(pattern: Seq<char>, cfg: MatchConfig, index: nat, line: Seq<char>) -> Option<Seq<char>> {
    record_spec(
        line,
        index,
        line_matches(pattern, cfg.case_insensitive, line),
        line_match_text(pattern, cfg.case_insensitive, line),
        cfg,
    )
}

/// The records of `lines`, in line order, at most one per line.
pub open spec fn records(pattern: Seq<char>, cfg: MatchConfig, lines: Seq<Seq<char>>) -> Seq<Seq<char>>
    decreases lines.len(),
{
    if lines.len() == 0 {
        Seq::empty()
    } else {
        let prev = records(pattern, cfg, lines.drop_last());
        match line_record(pattern, cfg, (lines.len() - 1) as nat, lines.last()) {
            Some(r) => prev.push(r),
            None => prev,
        }
    }
}

/// What a search of `content` writes, one record per entry.
pub open spec fn filter_output(pattern: Seq<char>, cfg: MatchConfig, content: Seq<char>) -> Seq<Seq<char>> {
    records(pattern, cfg, lines_of(content))
}

/// Whether a search with `pattern` can run at all.
pub open spec fn pattern_accepted(pattern: Seq<char>, case_insensitive: bool) -> bool {
    pattern.len() == 0 || pattern_compiles(pattern, case_insensitive)
}

/// `rec` is the rendering of a non-empty piece of one of `lines`.
pub open spec fn record_within_line(rec: Seq<char>, lines: Seq<Seq<char>>, cfg: MatchConfig) -> bool {
    exists|i: int, t: Seq<char>|
        0 <= i < lines.len() && t.len() > 0 && is_substring(t, lines[i]) && rec == #[trigger] render(i as nat, t, cfg)
}

fn digit_str(d: usize) -> (r: &'static str)
    requires
        d < 10,
    ensures
        r@ == seq![digit_char(d as nat)],
{
    if d == 0 {
        proof { reveal_strlit("0"); }
        "0"
    } else if d == 1 {
        proof { reveal_strlit("1"); }
        "1"
    } else if d == 2 {
        proof { reveal_strlit("2"); }
        "2"
    } else if d == 3 {
        proof { reveal_strlit("3"); }
        "3"
    } else if d == 4 {
        proof { reveal_strlit("4"); }
        "4"
    } else if d == 5 {
        proof { reveal_strlit("5"); }
        "5"
    } else if d == 6 {
        proof { reveal_strlit("6"); }
        "6"
    } else if d == 7 {
        proof { reveal_strlit("7"); }
        "7"
    } else if d == 8 {
        proof { reveal_strlit("8"); }
        "8"
    } else {
        proof { reveal_strlit("9"); }
        "9"
    }
}

/// The decimal form of `n`.
pub fn decimal_string(n: usize) -> (r: String)
    ensures
        r@ == decimal(n as nat),
    decreases n,
{
    if n < 10 {
        String::from_str(digit_str(n))
    } else {
        let mut s = decimal_string(n / 10);
        s.append(digit_str(n % 10));
        s
    }
}

/// The record for one line, from what the pattern engine reported on it:
/// whether it matched, and the first match (looked for only where it is written).
pub fn record_for_line(
    line: &str,
    index: usize,
    matched: bool,
    found: Option<&str>,
    cfg: MatchConfig,
) -> (r: Option<String>)
    requires
        index < usize::MAX,
    ensures
        r matches Some(s) ==> record_spec(line@, index as nat, matched, text_view(found), cfg) == Some(s@),
        r is None ==> record_spec(line@, index as nat, matched, text_view(found), cfg) is None,
{
    if matched == cfg.invert_match {
        return None;
    }
    proof { reveal_strlit(""); reveal_strlit(":"); }
    let text: &str = if cfg.only_matching {
        match found {
            Some(t) => t,
            None => "",
        }
    } else {
        line
    };
    if text.is_empty() {
        return None;
    }
    if cfg.line_numbers {
        let mut s = decimal_string(index + 1);
        s.append(":");
        s.append(text);
        Some(s)
    } else {
        Some(String::from_str(text))
    }
}

/// Searches `content` line by line for `pattern` and returns the records to
/// write, in line order. An empty pattern matches every line; any other pattern
/// is a regular expression, and one that does not compile is an error.
pub fn find_matches(
    content: &str,
    pattern: &str,
    case_insensitive: bool,
    line_numbers: bool,
    only_matching: bool,
    invert_match: bool,
) -> (r: Result<Vec<String>, GrepError>)
    ensures
        r is Ok <==> pattern_accepted(pattern@, case_insensitive),
        r matches Ok(out) ==> out@.map_values(|s: String| s@) == filter_output(
            pattern@,
            (MatchConfig { case_insensitive, line_numbers, only_matching, invert_match }),
            content@,
        ),
        r matches Ok(out) ==> only_matching ==> forall|k: int|
            0 <= k < out@.len() ==> record_within_line(
                #[trigger] out@[k]@,
                lines_of(content@),
                (MatchConfig { case_insensitive, line_numbers, only_matching, invert_match }),
            ),
{
    let cfg = MatchConfig { case_insensitive, line_numbers, only_matching, invert_match };
    let matcher: Option<Matcher> = if pattern.is_empty() {
        None
    } else {
        match compile(pattern, case_insensitive) {
            Ok(m) => Some(m),
            Err(e) => return Err(GrepError::InvalidPattern(e)),
        }
    };
    let lines = split_lines(content);
    let ghost lv = lines_of(content@);
    let mut out: Vec<String> = Vec::new();
    let mut i: usize = 0;
    while i < lines.len()
        invariant
            cfg == (MatchConfig { case_insensitive, line_numbers, only_matching, invert_match }),
            lv == lines_of(content@),
            lines@.len() == lv.len(),
            forall|j: int| 0 <= j < lv.len() ==> (#[trigger] lines@[j])@ == lv[j],
            i <= lv.len(),
            matcher is None <==> pattern@.len() == 0,
            matcher matches Some(m) ==> m.source() == pattern@ && m.case_insensitive() == case_insensitive,
            out@.map_values(|s: String| s@) == records(pattern@, cfg, lv.take(i as int)),
            only_matching ==> forall|k: int|
                0 <= k < out@.len() ==> record_within_line(#[trigger] out@[k]@, lv, cfg),
        decreases lv.len() - i,
    {
        let line = lines[i];
        let (matched, found) = match &matcher {
            None => {
                let empty: &str = "";
                proof {
                    reveal_strlit("");
                    assert(empty@ =~= Seq::<char>::empty());
                }
                assert(text_view(Some(empty)) == line_match_text(pattern@, case_insensitive, line@));
                (true, Some(empty))
            },
            Some(m) => {
                let matched = is_match(m, line);
                let found = if only_matching && matched != invert_match {
                    find(m, line)
                } else {
                    None
                };
                assert(only_matching && matched != invert_match ==> text_view(found)
                    == line_match_text(pattern@, case_insensitive, line@));
                assert(found matches Some(t) ==> is_substring(t@, line@));
                (matched, found)
            },
        };
        assert(matched == line_matches(pattern@, case_insensitive, line@));
        let rec = record_for_line(line, i, matched, found, cfg);
        proof {
            assert(lv.take(i + 1).drop_last() =~= lv.take(i as int));
            assert(lv.take(i + 1).last() == lv[i as int]);
            assert(record_spec(line@, i as nat, matched, text_view(found), cfg)
                == line_record(pattern@, cfg, i as nat, lv[i as int]));
        }
        match rec {
            Some(s) => {
                proof {
                    if only_matching {
                        let t = found->0@;
                        assert(emitted_text(line@, text_view(found), cfg) == t);
                        assert(record_within_line(s@, lv, cfg));
                    }
                }
                out.push(s);
                proof {
                    assert(out@.map_values(|s: String| s@) =~= records(pattern@, cfg, lv.take(i as int)).push(s@));
                }
            },
            None => {},
        }
        i += 1;
    }
    proof {
        assert(lv.take(lv.len() as int) =~= lv);
    }
    Ok(out)
}

} // verus!
