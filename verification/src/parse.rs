//! The parser for the legacy one-line source syntax.
//!
//! A directive has the shape
//! `type [name=value,... ...] uri suite component...`:
//! a source type keyword, an optional bracketed option list, and at
//! least three whitespace-separated positional parameters.  A whole
//! legacy file is parsed line by line, classifying each line as blank,
//! comment, disabled entry or active entry.

use vstd::prelude::*;

use crate::error::Error;
use crate::options::KnownOptionName;
use crate::options::OptionMap;
use crate::options::OptionName;
use crate::options::OptionNameV;
use crate::options::OptionPair;
use crate::options::OptionValue;
use crate::options::OptionValueV;
use crate::options::known_name_of;
use crate::options::spec_insert;
use crate::options::value_of_list;
use crate::options::value_of_token;
use crate::text::all_ws;
use crate::text::find_from;
use crate::text::lines_spec;
use crate::text::next_non_ws;
use crate::text::next_ws;
use crate::text::split_char_from;
use crate::text::trim_spec;
use crate::text::ws_split_from;
use crate::types::source_type_of;

verus! {

use vstd::string::StringExecFns;

/// The index of the `=` separating an option token's name and value.
pub open spec fn opt_eq_idx(t: Seq<char>) -> int {
    find_from(t, '=', 0)
}

/// The name part of an option token.
pub open spec fn opt_name_text(t: Seq<char>) -> Seq<char> {
    t.take(opt_eq_idx(t))
}

/// The value part of an option token.
pub open spec fn opt_value_text(t: Seq<char>) -> Seq<char> {
    t.skip(opt_eq_idx(t) + 1)
}

/// An option token is valid when it has an `=` and its name resolves
/// to a known option name.
pub open spec fn opt_tok_valid(t: Seq<char>) -> bool {
    opt_eq_idx(t) < t.len() && known_name_of(opt_name_text(t)) is Some
}

/// The known option name of a valid option token.
pub open spec fn opt_tok_name(t: Seq<char>) -> KnownOptionName {
    known_name_of(opt_name_text(t)).unwrap()
}

/// The value of an option token: its value part split at commas,
/// a single piece collapsing to the value of that token.
pub open spec fn parsed_opt_value(t: Seq<char>) -> OptionValueV {
    value_of_list(split_char_from(opt_value_text(t), ',', 0))
}

/// The type keyword of a one-line directive: its first
/// whitespace-separated token.
pub open spec fn line_type_tok(s: Seq<char>) -> Seq<char> {
    let i0 = next_non_ws(s, 0);
    s.subrange(i0, next_ws(s, i0))
}

/// The index right after the type keyword.
pub open spec fn line_after_type(s: Seq<char>) -> int {
    next_ws(s, next_non_ws(s, 0))
}

/// The index of the `[` opening the option list, where one follows the
/// type keyword.
pub open spec fn line_bracket_open(s: Seq<char>) -> int {
    next_non_ws(s, line_after_type(s))
}

/// Whether an option list follows the type keyword.
pub open spec fn line_has_bracket(s: Seq<char>) -> bool {
    line_bracket_open(s) < s.len() && s[line_bracket_open(s)] == '['
}

/// The index of the `]` closing the option list, or the line's length
/// when it is not closed.
pub open spec fn line_bracket_close(s: Seq<char>) -> int {
    find_from(s, ']', line_bracket_open(s) + 1)
}

/// The option tokens between the brackets.
pub open spec fn line_opt_toks(s: Seq<char>) -> Seq<Seq<char>> {
    ws_split_from(s.subrange(line_bracket_open(s) + 1, line_bracket_close(s)), 0)
}

/// Every option token between the brackets is valid.
pub open spec fn line_opts_ok(s: Seq<char>) -> bool {
    forall|i: int| 0 <= i < line_opt_toks(s).len() ==> opt_tok_valid(#[trigger] line_opt_toks(s)[i])
}

/// The index where the positional parameters start.
pub open spec fn line_params_start(s: Seq<char>) -> int {
    if line_has_bracket(s) {
        line_bracket_close(s) + 1
    } else {
        line_after_type(s)
    }
}

/// The positional parameters: URI, suite and components.
pub open spec fn line_params(s: Seq<char>) -> Seq<Seq<char>> {
    ws_split_from(s.subrange(line_params_start(s), s.len() as int), 0)
}

/// Whether a one-line directive follows the grammar: a recognized type
/// keyword, a closed option list of valid options when one is present,
/// and at least three positional parameters.
pub open spec fn line_parses(s: Seq<char>) -> bool {
    source_type_of(line_type_tok(s)) is Some && (if line_has_bracket(s) {
        line_bracket_close(s) < s.len() && line_opts_ok(s) && line_params(s).len() >= 3
    } else {
        line_params(s).len() >= 3
    })
}

/// The bracketed options folded into a map, in token order.
pub open spec fn fold_opts(
    m: Map<OptionNameV, OptionValueV>,
    toks: Seq<Seq<char>>,
    i: int,
) -> Map<OptionNameV, OptionValueV>
    decreases toks.len() - i,
{
    if i < 0 || i >= toks.len() {
        m
    } else {
        fold_opts(
            spec_insert(m, OptionNameV::Known(opt_tok_name(toks[i])), parsed_opt_value(toks[i])),
            toks,
            i + 1,
        )
    }
}

/// The option map a well-formed one-line directive stands for: the
/// type keyword as `Types`, then the bracketed options, then the
/// positional parameters.  The bare parser never sets `Enabled`;
/// callers set it from context (active line or disabled-via-comment).
pub open spec fn line_map(s: Seq<char>) -> Map<OptionNameV, OptionValueV> {
    let m1 = spec_insert(
        Map::empty(),
        OptionNameV::Known(KnownOptionName::Types),
        value_of_token(line_type_tok(s)),
    );
    let m2 = if line_has_bracket(s) {
        fold_opts(m1, line_opt_toks(s), 0)
    } else {
        m1
    };
    let p = line_params(s);
    let m3 = spec_insert(m2, OptionNameV::Known(KnownOptionName::Uris), value_of_token(p[0]));
    let m4 = spec_insert(m3, OptionNameV::Known(KnownOptionName::Suites), value_of_token(p[1]));
    spec_insert(m4, OptionNameV::Known(KnownOptionName::Components), value_of_list(p.skip(2)))
}

/// Parse a custom option in `key=value` format.
///
/// With `force_literal`, the key is taken literally as a custom option
/// name; otherwise it must resolve to a known option name.
pub fn parse_custom_option(option: &str, force_literal: bool) -> (r: Result<OptionPair, Error>)
    ensures
        ({
            let t = trim_spec(option@);
            let e = opt_eq_idx(t);
            &&& (e == t.len() ==> (r matches Err(err) && err matches Error::MalformedOption {
                option: o,
            } && o@ == option@))
            &&& (e < t.len() && force_literal ==> (r matches Ok(p) && p.0@ == OptionNameV::Custom(
                opt_name_text(t),
            ) && p.1@ == parsed_opt_value(t)))
            &&& (e < t.len() && !force_literal && known_name_of(opt_name_text(t)) is None ==> (
            r matches Err(err) && err matches Error::InvalidOptionName { name } && name@
                == opt_name_text(t)))
            &&& (e < t.len() && !force_literal && known_name_of(opt_name_text(t)) is Some ==> (
            r matches Ok(p) && p.0@ == OptionNameV::Known(opt_tok_name(t)) && p.1@
                == parsed_opt_value(t)))
        }),
{
    let trimmed = crate::text::trim(option);
    let n = trimmed.unicode_len();
    let e = crate::text::scan_char(trimmed, '=', 0);
    if e == n {
        return Err(Error::MalformedOption { option: String::from_str(option) });
    }
    proof {
        crate::text::lemma_find_from(trimmed@, '=', 0);
    }
    let key = crate::text::substr(trimmed, 0, e);
    let value = crate::text::substr(trimmed, e + 1, n);
    proof {
        assert(key@ =~= opt_name_text(trimmed@));
        assert(value@ =~= opt_value_text(trimmed@));
    }
    let name = if force_literal {
        OptionName::Custom(key)
    } else {
        match KnownOptionName::from_str(key.as_str()) {
            Ok(k) => OptionName::Known(k),
            Err(err) => {
                return Err(err);
            },
        }
    };
    let pieces = crate::text::split_on(value.as_str(), ',');
    Ok((name, OptionValue::from_list(pieces)))
}

/// Copies of the strings of `v` from index `from` on.
fn tail_strings(v: &Vec<String>, from: usize) -> (r: Vec<String>)
    requires
        from <= v@.len(),
    ensures
        r.deep_view() == v.deep_view().skip(from as int),
{
    let mut out: Vec<String> = Vec::new();
    let mut i = from;
    while i < v.len()
        invariant
            from <= i <= v@.len(),
            out.deep_view() =~= v.deep_view().subrange(from as int, i as int),
        decreases v@.len() - i,
    {
        let ghost old_dv = out.deep_view();
        out.push(v[i].clone());
        proof {
            assert(out.deep_view() =~= old_dv + seq![v.deep_view()[i as int]]);
            assert(out.deep_view() =~= v.deep_view().subrange(from as int, i + 1));
        }
        i = i + 1;
    }
    proof {
        assert(v.deep_view().subrange(from as int, v@.len() as int) =~= v.deep_view().skip(
            from as int,
        ));
    }
    out
}

/// Parse a one-line-style source entry into an option map.
///
/// Exactly the directives accepted by the grammar parse; every failure
/// carries the malformed-one-line-entry kind.
#[verifier::loop_isolation(false)]
pub fn parse_line_entry(entry: &str) -> (r: Result<OptionMap, Error>)
    ensures
        r is Ok <==> line_parses(entry@),
        r matches Ok(m) ==> m.wf() && m@ == line_map(entry@),
        r matches Err(e) ==> e is MalformedOneLineEntry,
{
    let s = entry;
    let n = s.unicode_len();
    let i0 = crate::text::scan_non_ws(s, 0);
    let i1 = crate::text::scan_ws(s, i0);
    let type_tok = crate::text::substr(s, i0, i1);
    proof {
        assert(type_tok@ == line_type_tok(s@));
    }
    match crate::types::SourceType::from_str(type_tok.as_str()) {
        Ok(_) => {},
        Err(e) => {
            return Err(e);
        },
    }
    let mut map = OptionMap::new();
    map.insert(OptionName::Known(KnownOptionName::Types), OptionValue::from_string(type_tok));
    let ghost m1 = map@;
    let i2 = crate::text::scan_non_ws(s, i1);
    let params_from: usize;
    if i2 < n && s.get_char(i2) == '[' {
        proof {
            assert(line_has_bracket(s@));
        }
        let close = crate::text::scan_char(s, ']', i2 + 1);
        if close == n {
            return Err(
                Error::MalformedOneLineEntry {
                    reason: String::from_str("The options list is not closed with `]`."),
                },
            );
        }
        let opts_str = crate::text::substr(s, i2 + 1, close);
        let opt_toks = crate::text::split_ws(opts_str.as_str());
        let ghost toks = line_opt_toks(s@);
        proof {
            assert(opt_toks.deep_view() == toks);
        }
        let mut oi: usize = 0;
        while oi < opt_toks.len()
            invariant
                0 <= oi <= opt_toks@.len(),
                opt_toks.deep_view() == toks,
                opt_toks@.len() == toks.len(),
                map.wf(),
                fold_opts(m1, toks, 0) == fold_opts(map@, toks, oi as int),
                forall|t: int| 0 <= t < oi ==> opt_tok_valid(#[trigger] toks[t]),
            decreases opt_toks@.len() - oi,
        {
            let tok_len = opt_toks[oi].unicode_len();
            let e = crate::text::scan_char(opt_toks[oi].as_str(), '=', 0);
            proof {
                assert(opt_toks[oi as int]@ == toks[oi as int]);
            }
            if e == tok_len {
                proof {
                    assert(opt_toks.deep_view()[oi as int] == opt_toks@[oi as int]@);
                    assert(toks[oi as int] == opt_toks@[oi as int]@);
                    assert(find_from(toks[oi as int], '=', 0) == e as int);
                    assert(opt_eq_idx(toks[oi as int]) == toks[oi as int].len());
                    assert(!opt_tok_valid(toks[oi as int]));
                    assert(line_opt_toks(s@)[oi as int] == toks[oi as int]);
                    assert(!line_opts_ok(s@));
                }
                return Err(
                    Error::MalformedOneLineEntry {
                        reason: String::from_str(
                            "Options must take the form `key=value` or `key=value1,value2`.",
                        ),
                    },
                );
            }
            proof {
                crate::text::lemma_find_from(toks[oi as int], '=', 0);
            }
            let key = crate::text::substr(opt_toks[oi].as_str(), 0, e);
            proof {
                assert(key@ =~= opt_name_text(toks[oi as int]));
            }
            match KnownOptionName::from_str(key.as_str()) {
                Ok(k) => {
                    let value = crate::text::substr(opt_toks[oi].as_str(), e + 1, tok_len);
                    proof {
                        assert(value@ =~= opt_value_text(toks[oi as int]));
                    }
                    let pieces = crate::text::split_on(value.as_str(), ',');
                    map.insert(OptionName::Known(k), OptionValue::from_list(pieces));
                },
                Err(_) => {
                    proof {
                        assert(toks[oi as int] == opt_toks@[oi as int]@);
                        assert(key@ == opt_name_text(toks[oi as int]));
                        assert(!opt_tok_valid(toks[oi as int]));
                        assert(line_opt_toks(s@)[oi as int] == toks[oi as int]);
                        assert(!line_opts_ok(s@));
                    }
                    let mut reason = String::from_str("This is not a valid option name: `");
                    reason.append(key.as_str());
                    reason.append(
                        "`. See the sources.list(5) man page for a list of valid options.",
                    );
                    return Err(Error::MalformedOneLineEntry { reason });
                },
            }
            oi = oi + 1;
        }
        params_from = close + 1;
        proof {
            assert(line_opts_ok(s@));
            assert(map@ == fold_opts(m1, toks, 0));
        }
    } else {
        proof {
            assert(!line_has_bracket(s@));
        }
        params_from = i1;
    }
    proof {
        assert(params_from as int == line_params_start(s@));
    }
    let params_str = crate::text::substr(s, params_from, n);
    let params = crate::text::split_ws(params_str.as_str());
    let ghost pv = line_params(s@);
    proof {
        assert(params.deep_view() == pv);
    }
    if params.len() < 3 {
        return Err(
            Error::MalformedOneLineEntry {
                reason: String::from_str(
                    "The entry must name a URI, a suite and at least one component.",
                ),
            },
        );
    }
    map.insert(
        OptionName::Known(KnownOptionName::Uris),
        OptionValue::from_str_value(params[0].as_str()),
    );
    map.insert(
        OptionName::Known(KnownOptionName::Suites),
        OptionValue::from_str_value(params[1].as_str()),
    );
    let components = tail_strings(&params, 2);
    map.insert(OptionName::Known(KnownOptionName::Components), OptionValue::from_list(components));
    proof {
        assert(line_parses(s@));
        assert(map@ == line_map(s@));
    }
    Ok(map)
}

/// A line in a one-line-style source file, as its conversion will
/// render it: a source entry or a preserved comment.
#[derive(Debug, Clone, PartialEq, Eq)]
pub enum ConvertedLineEntry {
    Entry(OptionMap),
    Comment(String),
}

/// The mathematical view of a converted line.
pub enum ConvertedLineV {
    Entry(Map<OptionNameV, OptionValueV>),
    Comment(Seq<char>),
}

impl View for ConvertedLineEntry {
    type V = ConvertedLineV;

    open spec fn view(&self) -> ConvertedLineV {
        match self {
            ConvertedLineEntry::Entry(m) => ConvertedLineV::Entry(m@),
            ConvertedLineEntry::Comment(s) => ConvertedLineV::Comment(s@),
        }
    }
}

/// Whether the option map of a converted line is well-formed.
pub open spec fn cle_wf(e: ConvertedLineEntry) -> bool {
    match e {
        ConvertedLineEntry::Entry(m) => m.wf(),
        ConvertedLineEntry::Comment(_) => true,
    }
}

/// The views of a sequence of converted lines.
pub open spec fn cles_view(s: Seq<ConvertedLineEntry>) -> Seq<ConvertedLineV> {
    s.map_values(|e: ConvertedLineEntry| e@)
}

/// Options for parsing a one-line-style source file.
#[derive(Debug, Clone)]
pub struct ParseLineFileOptions {
    /// Leave comment lines out of the conversion.
    pub skip_comments: bool,
    /// Leave commented-out entries out of the conversion.
    pub skip_disabled: bool,
}

/// Whether a line is a comment line: its first non-whitespace
/// character is the comment marker.
pub open spec fn line_is_commentish(l: Seq<char>) -> bool {
    !all_ws(l) && trim_spec(l)[0] == '#'
}

/// The trimmed text after the first comment marker of a comment line.
pub open spec fn comment_rest(l: Seq<char>) -> Seq<char> {
    trim_spec(l.skip(find_from(l, '#', 0) + 1))
}

/// Whether every active (non-blank, non-comment) line of the file
/// parses as a one-line directive.
pub open spec fn file_ok_from(lines: Seq<Seq<char>>, i: int) -> bool
    decreases lines.len() - i,
{
    if i < 0 || i >= lines.len() {
        true
    } else if all_ws(lines[i]) || line_is_commentish(lines[i]) {
        file_ok_from(lines, i + 1)
    } else {
        line_parses(lines[i]) && file_ok_from(lines, i + 1)
    }
}

/// The converted lines of a legacy file, in input order: blank lines
/// are dropped; a comment line whose text after the marker parses as a
/// directive becomes a disabled entry, any other comment line is kept
/// as a comment; an active line becomes an entry with `Enabled` forced
/// to true, so the converted output is always explicit about it.
pub open spec fn file_entries_from(
    lines: Seq<Seq<char>>,
    i: int,
    skip_comments: bool,
    skip_disabled: bool,
) -> Seq<ConvertedLineV>
    decreases lines.len() - i,
{
    if i < 0 || i >= lines.len() {
        seq![]
    } else {
        let l = lines[i];
        let rest = file_entries_from(lines, i + 1, skip_comments, skip_disabled);
        if all_ws(l) {
            rest
        } else if line_is_commentish(l) {
            let d = comment_rest(l);
            if line_parses(d) {
                if skip_disabled {
                    rest
                } else {
                    seq![
                        ConvertedLineV::Entry(
                            spec_insert(
                                line_map(d),
                                OptionNameV::Known(KnownOptionName::Enabled),
                                OptionValueV::Bool(false),
                            ),
                        ),
                    ] + rest
                }
            } else {
                if skip_comments {
                    rest
                } else {
                    seq![ConvertedLineV::Comment(d)] + rest
                }
            }
        } else {
            seq![
                ConvertedLineV::Entry(
                    spec_insert(
                        line_map(l),
                        OptionNameV::Known(KnownOptionName::Enabled),
                        OptionValueV::Bool(true),
                    ),
                ),
            ] + rest
        }
    }
}

/// Parse a whole file of one-line-style source entries.
///
/// Comments are preserved unless `skip_comments` is set.  Entries that
/// are commented out become disabled entries unless `skip_disabled` is
/// set.  The order of the result mirrors the input line order.
#[verifier::loop_isolation(false)]
pub fn parse_line_file(content: &str, options: &ParseLineFileOptions) -> (r: Result<
    Vec<ConvertedLineEntry>,
    Error,
>)
    ensures
        r is Ok <==> file_ok_from(lines_spec(content@), 0),
        r matches Ok(v) ==> cles_view(v@) == file_entries_from(
            lines_spec(content@),
            0,
            options.skip_comments,
            options.skip_disabled,
        ),
        r matches Ok(v) ==> forall|i: int| 0 <= i < v@.len() ==> cle_wf(#[trigger] v@[i]),
        r matches Err(e) ==> e is MalformedOneLineEntry,
{
    let lines = crate::text::split_lines(content);
    let ghost ldv = lines_spec(content@);
    let ghost skip_c = options.skip_comments;
    let ghost skip_d = options.skip_disabled;
    let mut out: Vec<ConvertedLineEntry> = Vec::new();
    let mut li: usize = 0;
    while li < lines.len()
        invariant
            0 <= li <= lines@.len(),
            file_ok_from(ldv, 0) == file_ok_from(ldv, li as int),
            file_entries_from(ldv, 0, skip_c, skip_d) =~= cles_view(out@) + file_entries_from(
                ldv,
                li as int,
                skip_c,
                skip_d,
            ),
            forall|i: int| 0 <= i < out@.len() ==> cle_wf(#[trigger] out@[i]),
        decreases lines@.len() - li,
    {
        let ghost ov_old = cles_view(out@);
        let trimmed = crate::text::trim(lines[li].as_str());
        proof {
            assert(lines[li as int]@ == ldv[li as int]);
            crate::text::lemma_trim_empty(ldv[li as int]);
        }
        if trimmed.unicode_len() == 0 {
            li = li + 1;
            continue;
        }
        if trimmed.get_char(0) == '#' {
            proof {
                assert(line_is_commentish(ldv[li as int]));
            }
            let llen = lines[li].unicode_len();
            let hash = crate::text::scan_char(lines[li].as_str(), '#', 0);
            proof {
                let l = ldv[li as int];
                let b = next_non_ws(l, 0);
                crate::text::lemma_next_non_ws(l, 0);
                crate::text::lemma_trim_end_from(l, l.len() as int);
                assert(l[b] == '#');
                crate::text::lemma_find_from(l, '#', 0);
                assert(hash < llen);
            }
            let after = crate::text::substr(lines[li].as_str(), hash + 1, llen);
            let disabled_line = crate::text::trim(after.as_str());
            proof {
                assert(disabled_line@ == comment_rest(ldv[li as int]));
            }
            match parse_line_entry(disabled_line) {
                Ok(m) => {
                    if options.skip_disabled {
                        li = li + 1;
                        continue;
                    }
                    let mut m = m;
                    m.insert(
                        OptionName::Known(KnownOptionName::Enabled),
                        OptionValue::from_bool(false),
                    );
                    out.push(ConvertedLineEntry::Entry(m));
                    proof {
                        assert(cles_view(out@) =~= ov_old + seq![out@[out@.len() - 1]@]);
                    }
                },
                Err(_) => {
                    if options.skip_comments {
                        li = li + 1;
                        continue;
                    }
                    out.push(ConvertedLineEntry::Comment(String::from_str(disabled_line)));
                    proof {
                        assert(cles_view(out@) =~= ov_old + seq![out@[out@.len() - 1]@]);
                    }
                },
            }
        } else {
            proof {
                assert(!all_ws(ldv[li as int]));
                assert(trim_spec(ldv[li as int])[0] != '#');
                assert(!line_is_commentish(ldv[li as int]));
            }
            match parse_line_entry(lines[li].as_str()) {
                Ok(m) => {
                    let mut m = m;
                    m.insert(
                        OptionName::Known(KnownOptionName::Enabled),
                        OptionValue::from_bool(true),
                    );
                    out.push(ConvertedLineEntry::Entry(m));
                    proof {
                        assert(cles_view(out@) =~= ov_old + seq![out@[out@.len() - 1]@]);
                    }
                },
                Err(e) => {
                    proof {
                        assert(!file_ok_from(ldv, li as int));
                    }
                    return Err(e);
                },
            }
        }
        li = li + 1;
    }
    proof {
        assert(file_entries_from(ldv, lines@.len() as int, skip_c, skip_d) =~= Seq::<
            ConvertedLineV,
        >::empty());
        assert(cles_view(out@) =~= file_entries_from(ldv, 0, skip_c, skip_d));
    }
    Ok(out)
}


} // verus!
