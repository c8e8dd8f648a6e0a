//! A repository source entry: the stanza serializer and the
//! install/overwrite state machine that decides what writing the entry
//! to a target file does.

use vstd::prelude::*;

use crate::error::Error;
use crate::file::SourceFile;
use crate::file::file_path_spec;
use crate::key::KeySource;
use crate::options::OptionMap;
use crate::options::OptionNameV;
use crate::options::OptionValue;
use crate::options::OptionValueV;
use crate::options::canonical_listing;
use crate::options::name_display;
use crate::options::value_deb822;
use crate::text::all_ws;
use crate::text::suffix_after_nl;

verus! {

use vstd::string::StringExecFns;

/// What to do if a source file already exists.
#[derive(Debug, Clone, Copy, PartialEq, Eq, Structural)]
pub enum OverwriteAction {
    Overwrite,
    Append,
    Fail,
}

/// The effect installing a source entry has on the target file.
#[derive(Debug, Clone, Copy, PartialEq, Eq, Structural)]
pub enum InstallPlanAction {
    /// The source file will be created.
    Create,
    /// The source file will be overwritten.
    Overwrite,
    /// The entry will be appended to the existing source file.
    Append,
}

/// A plan for what will occur when a source entry is installed, for
/// reporting before any file is touched.  The file may change between
/// planning and execution, so execution re-checks and fails cleanly
/// rather than trusting the plan.
#[derive(Debug, Clone, PartialEq, Eq)]
pub struct InstallPlan {
    /// The path of the target source file.
    pub path: String,
    /// The effect installing will have.
    pub action: InstallPlanAction,
}

impl InstallPlan {
    /// Decide the effect of installing to a target, given whether the
    /// target exists and the requested overwrite policy.
    ///
    /// A missing target is created under every policy.  An existing
    /// target is overwritten under the overwrite policy, appended to
    /// under the append policy, and rejected with the specific
    /// already-exists error under the fail policy.
    pub fn new(path: &str, exists: bool, action: OverwriteAction) -> (r: Result<InstallPlan, Error>)
        ensures
            !exists ==> (r matches Ok(p) && p.action == InstallPlanAction::Create && p.path@
                == path@),
            exists && action == OverwriteAction::Overwrite ==> (r matches Ok(p) && p.action
                == InstallPlanAction::Overwrite && p.path@ == path@),
            exists && action == OverwriteAction::Append ==> (r matches Ok(p) && p.action
                == InstallPlanAction::Append && p.path@ == path@),
            exists && action == OverwriteAction::Fail ==> (r matches Err(e) && e matches
                Error::NewSourceFileAlreadyExists { path: q } && q@ == path@),
    {
        if !exists {
            Ok(InstallPlan { path: String::from_str(path), action: InstallPlanAction::Create })
        } else {
            match action {
                OverwriteAction::Overwrite => Ok(
                    InstallPlan {
                        path: String::from_str(path),
                        action: InstallPlanAction::Overwrite,
                    },
                ),
                OverwriteAction::Append => Ok(
                    InstallPlan { path: String::from_str(path), action: InstallPlanAction::Append },
                ),
                OverwriteAction::Fail => Err(
                    Error::NewSourceFileAlreadyExists { path: String::from_str(path) },
                ),
            }
        }
    }
}

/// The rendering of one listed option as deb822 text: `Name: value`
/// on one line, except multiline values, which follow `Name:` as their
/// own block.
pub open spec fn render_pair(p: (OptionNameV, OptionValueV)) -> Seq<char> {
    if p.1 is Multiline {
        name_display(p.0) + seq![':'] + value_deb822(p.1)
    } else {
        name_display(p.0) + seq![':', ' '] + value_deb822(p.1) + seq!['\n']
    }
}

/// The rendering of the listed options from index `i` on.
pub open spec fn render_from(l: Seq<(OptionNameV, OptionValueV)>, i: int) -> Seq<char>
    decreases l.len() - i,
{
    if i < 0 || i >= l.len() {
        seq![]
    } else {
        render_pair(l[i]) + render_from(l, i + 1)
    }
}

/// The stanza a map serializes to: its canonical listing, rendered.
pub open spec fn stanza_of(m: Map<OptionNameV, OptionValueV>) -> Seq<char> {
    render_from(canonical_listing(m), 0)
}

/// Serialize an option map as a deb822 stanza.
///
/// The output is a function of the map's contents alone: for the same
/// contents it is byte-identical on every call.
#[verifier::loop_isolation(false)]
pub fn render_options(map: &OptionMap) -> (r: String)
    requires
        map.wf(),
    ensures
        r@ == stanza_of(map@),
{
    let listing = map.options();
    let ghost lv = crate::options::pairs_view(listing@);
    let mut out = String::new();
    proof {
        reveal_strlit(":");
        reveal_strlit(": ");
        reveal_strlit("\n");
        assert(":"@ =~= seq![':']);
        assert(": "@ =~= seq![':', ' ']);
        assert("\n"@ =~= seq!['\n']);
    }
    let mut i: usize = 0;
    while i < listing.len()
        invariant
            0 <= i <= listing@.len(),
            out@ + render_from(lv, i as int) == render_from(lv, 0),
        decreases listing@.len() - i,
    {
        let ghost old_out = out@;
        let name_str = listing[i].0.to_deb822();
        out.append(name_str);
        let value_str = listing[i].1.to_deb822();
        match &listing[i].1 {
            OptionValue::Multiline(_) => {
                out.append(":");
                out.append(value_str.as_str());
                proof {
                    assert(lv[i as int] == (listing@[i as int].0@, listing@[i as int].1@));
                    assert(out@ =~= old_out + render_pair(lv[i as int]));
                }
            },
            _ => {
                out.append(": ");
                out.append(value_str.as_str());
                out.append("\n");
                proof {
                    assert(lv[i as int] == (listing@[i as int].0@, listing@[i as int].1@));
                    assert(out@ =~= old_out + render_pair(lv[i as int]));
                }
            },
        }
        proof {
            assert(out@ + render_from(lv, i + 1) =~= old_out + render_from(lv, i as int));
        }
        i = i + 1;
    }
    proof {
        assert(out@ + render_from(lv, listing@.len() as int) =~= out@);
    }
    out
}

/// Whether appending a stanza to a file with this content needs a
/// separating blank line first: the content has a last line and that
/// line is not blank.
pub open spec fn needs_sep(c: Seq<char>) -> bool {
    c.len() > 0 && !all_ws(
        suffix_after_nl(
            if c.last() == '\n' {
                c.drop_last()
            } else {
                c
            },
        ),
    )
}

/// The separator written before an appended stanza.
pub open spec fn sep_text(c: Seq<char>) -> Seq<char> {
    if needs_sep(c) {
        seq!['\n']
    } else {
        seq![]
    }
}

/// Whether a file with this content needs a separating blank line
/// before an appended stanza.
#[verifier::loop_isolation(false)]
pub fn content_needs_sep(content: &str) -> (r: bool)
    ensures
        r == needs_sep(content@),
{
    let n = content.unicode_len();
    if n == 0 {
        return false;
    }
    let e = if content.get_char(n - 1) == '\n' {
        n - 1
    } else {
        n
    };
    let ghost tail = if content@.last() == '\n' {
        content@.drop_last()
    } else {
        content@
    };
    proof {
        assert(tail =~= content@.subrange(0, e as int));
    }
    let mut k = e;
    while k > 0 && content.get_char(k - 1) != '\n'
        invariant
            0 <= k <= e,
            forall|j: int| k <= j < e ==> content@[j] != '\n',
        decreases k,
    {
        k = k - 1;
    }
    proof {
        assert forall|j: int| k <= j < tail.len() implies tail[j] != '\n' by {
            assert(tail[j] == content@[j]);
        }
        if k > 0 {
            assert(tail[k - 1] == content@[k - 1]);
        }
        crate::text::lemma_suffix_after_nl(tail, k as int);
        assert(tail.subrange(k as int, e as int) =~= content@.subrange(k as int, e as int));
    }
    let last_line = content.substring_char(k, e);
    !crate::text::str_all_ws(last_line)
}

/// The bytes installing an entry writes to the target: under the
/// append policy on an existing file, the old content followed by a
/// separator where one is needed and the stanza; otherwise the stanza
/// alone.
pub open spec fn install_text(
    existing: Option<Seq<char>>,
    action: OverwriteAction,
    stanza: Seq<char>,
) -> Seq<char> {
    match (action, existing) {
        (OverwriteAction::Append, Some(c)) => c + sep_text(c) + stanza,
        _ => stanza,
    }
}

/// The view of an optional file content.
pub open spec fn content_view(e: Option<&String>) -> Option<Seq<char>> {
    match e {
        Some(c) => Some(c@),
        None => None,
    }
}

/// A stanza fit for appending: nonempty, newline-terminated, with a
/// non-blank last line.  Every rendered stanza of a nonempty map whose
/// values hold no newline of their own is of this shape.
pub open spec fn stanza_wf(stanza: Seq<char>) -> bool {
    stanza.len() > 0 && stanza.last() == '\n' && !all_ws(suffix_after_nl(stanza.drop_last()))
}

/// A value none of whose text holds a newline of its own.
pub open spec fn value_clean(v: OptionValueV) -> bool {
    match v {
        OptionValueV::Text(s) => crate::text::no_nl(s),
        OptionValueV::List(l) => forall|i: int| 0 <= i < l.len() ==> crate::text::no_nl(#[trigger] l[i]),
        OptionValueV::Bool(_) => true,
        OptionValueV::Multiline(l) => forall|i: int|
            0 <= i < l.len() ==> crate::text::no_nl(#[trigger] l[i]),
    }
}

/// A listed pair whose name and value hold no newline of their own.
pub open spec fn pair_clean(p: (OptionNameV, OptionValueV)) -> bool {
    crate::text::no_nl(name_display(p.0)) && value_clean(p.1)
}

/// The deb822 text of a clean value other than a multiline block holds
/// no newline.
proof fn lemma_value_text_clean(v: OptionValueV)
    requires
        value_clean(v),
        !(v is Multiline),
    ensures
        crate::text::no_nl(value_deb822(v)),
{
    match v {
        OptionValueV::List(l) => {
            lemma_join_clean(l, 0);
        },
        OptionValueV::Bool(b) => {
            reveal_strlit("yes");
            reveal_strlit("no");
            assert(crate::text::no_nl("yes"@)) by {
                assert("yes"@.len() == 3);
                assert("yes"@[0] == 'y' && "yes"@[1] == 'e' && "yes"@[2] == 's');
            }
            assert(crate::text::no_nl("no"@)) by {
                assert("no"@.len() == 2);
                assert("no"@[0] == 'n' && "no"@[1] == 'o');
            }
        },
        _ => {},
    }
}

/// Space-joining newline-free pieces yields newline-free text.
proof fn lemma_join_clean(l: Seq<Seq<char>>, i: int)
    requires
        forall|t: int| 0 <= t < l.len() ==> crate::text::no_nl(#[trigger] l[t]),
    ensures
        crate::text::no_nl(crate::options::join_from(l, i)),
    decreases l.len() - i,
{
    if 0 <= i < l.len() && i != l.len() - 1 {
        lemma_join_clean(l, i + 1);
    }
}

/// The continuation block of clean lines is a well-formed stanza tail:
/// newline-terminated, with a non-blank last line.
proof fn lemma_ml_wf(l: Seq<Seq<char>>, i: int)
    requires
        0 <= i < l.len(),
        forall|t: int| 0 <= t < l.len() ==> crate::text::no_nl(#[trigger] l[t]),
    ensures
        stanza_wf(crate::options::ml_from(l, i)),
    decreases l.len() - i,
{
    let piece = seq![' '] + (if all_ws(l[i]) {
        seq!['.']
    } else {
        l[i]
    }) + seq!['\n'];
    let m = crate::options::ml_from(l, i);
    assert(crate::text::no_nl(piece.drop_last())) by {
        assert(piece.drop_last() =~= seq![' '] + (if all_ws(l[i]) {
            seq!['.']
        } else {
            l[i]
        }));
    }
    assert(!all_ws(piece.drop_last())) by {
        if all_ws(l[i]) {
            assert(piece.drop_last()[1] == '.');
            assert(!crate::text::is_ws_char('.'));
        } else {
            assert(exists|j: int|
                0 <= j < l[i].len() && !crate::text::is_ws_char(#[trigger] l[i][j]));
            let j = choose|j: int|
                0 <= j < l[i].len() && !crate::text::is_ws_char(#[trigger] l[i][j]);
            assert(piece.drop_last()[1 + j] == l[i][j]);
        }
    }
    if i == l.len() - 1 {
        reveal_with_fuel(crate::options::ml_from, 2);
        assert(m =~= piece);
        crate::text::lemma_suffix_no_nl(m.drop_last());
    } else {
        lemma_ml_wf(l, i + 1);
        let rest = crate::options::ml_from(l, i + 1);
        assert(m =~= piece + rest);
        assert(piece.last() == '\n');
        lemma_stanza_wf_prepend(piece, rest);
    }
}

/// Prepending newline-terminated (or empty) text to a well-formed
/// stanza keeps it well-formed.
proof fn lemma_stanza_wf_prepend(a: Seq<char>, b: Seq<char>)
    requires
        stanza_wf(b),
        a.len() == 0 || a.last() == '\n',
    ensures
        stanza_wf(a + b),
{
    let s = a + b;
    assert(s.last() == b.last());
    assert(s.drop_last() =~= a + b.drop_last());
    if exists|j: int| 0 <= j < b.drop_last().len() && #[trigger] b.drop_last()[j] == '\n' {
        crate::text::lemma_suffix_concat_nl(a, b.drop_last());
    } else {
        assert(crate::text::no_nl(b.drop_last()));
        crate::text::lemma_suffix_append_clean(a, b.drop_last());
        if a.len() > 0 {
            assert(suffix_after_nl(a) =~= Seq::<char>::empty());
        }
        assert(suffix_after_nl(s.drop_last()) =~= b.drop_last());
        crate::text::lemma_suffix_no_nl(b.drop_last());
    }
}

/// The rendering of one clean pair is a well-formed stanza.
proof fn lemma_render_pair_wf(p: (OptionNameV, OptionValueV))
    requires
        pair_clean(p),
    ensures
        stanza_wf(render_pair(p)),
{
    let chunk = render_pair(p);
    if p.1 is Multiline {
        let head = name_display(p.0) + seq![':'] + seq!['\n'];
        match p.1 {
            OptionValueV::Multiline(l) => {
                if l.len() == 0 {
                    assert(chunk =~= head);
                    assert(chunk.drop_last() =~= name_display(p.0) + seq![':']);
                    crate::text::lemma_suffix_no_nl(chunk.drop_last());
                    assert(chunk.drop_last()[name_display(p.0).len() as int] == ':');
                    assert(!crate::text::is_ws_char(':'));
                } else {
                    lemma_ml_wf(l, 0);
                    assert(chunk =~= head + crate::options::ml_from(l, 0));
                    assert(head.last() == '\n');
                    lemma_stanza_wf_prepend(head, crate::options::ml_from(l, 0));
                }
            },
            _ => {},
        }
    } else {
        lemma_value_text_clean(p.1);
        assert(chunk.drop_last() =~= name_display(p.0) + seq![':', ' '] + value_deb822(p.1));
        crate::text::lemma_suffix_no_nl(chunk.drop_last());
        assert(chunk.drop_last()[name_display(p.0).len() as int] == ':');
        assert(!crate::text::is_ws_char(':'));
    }
}

/// The rendered stanza of a nonempty listing of clean pairs is fit for
/// appending: nonempty, newline-terminated, and its last line is not
/// blank.  This lets `lemma_append_separator` apply to every stanza
/// the serializer produces for such options.
pub proof fn lemma_rendered_stanza_wf(l: Seq<(OptionNameV, OptionValueV)>)
    requires
        l.len() > 0,
        forall|i: int| 0 <= i < l.len() ==> pair_clean(#[trigger] l[i]),
    ensures
        stanza_wf(render_from(l, 0)),
{
    lemma_render_from_wf(l, 0);
}

proof fn lemma_render_from_wf(l: Seq<(OptionNameV, OptionValueV)>, i: int)
    requires
        0 <= i < l.len(),
        forall|t: int| 0 <= t < l.len() ==> pair_clean(#[trigger] l[t]),
    ensures
        stanza_wf(render_from(l, i)),
    decreases l.len() - i,
{
    lemma_render_pair_wf(l[i]);
    if i == l.len() - 1 {
        reveal_with_fuel(render_from, 2);
        assert(render_from(l, i) =~= render_pair(l[i]));
    } else {
        lemma_render_from_wf(l, i + 1);
        assert(render_pair(l[i]).last() == '\n');
        lemma_stanza_wf_prepend(render_pair(l[i]), render_from(l, i + 1));
    }
}

/// Appending the same stanza twice leaves exactly one blank line
/// between the two copies, whatever the file held before: the second
/// append writes exactly one empty line and then the stanza.
pub proof fn lemma_append_separator(c: Seq<char>, stanza: Seq<char>)
    requires
        stanza_wf(stanza),
    ensures
        install_text(
            Some(install_text(Some(c), OverwriteAction::Append, stanza)),
            OverwriteAction::Append,
            stanza,
        ) == install_text(Some(c), OverwriteAction::Append, stanza) + seq!['\n'] + stanza,
{
    let c1 = c + sep_text(c) + stanza;
    let p = c.len() + sep_text(c).len();
    assert(c1.len() > 0);
    assert(c1.last() == '\n');
    let d1 = c1.drop_last();
    let d0 = stanza.drop_last();
    crate::text::lemma_suffix_props(d1);
    crate::text::lemma_suffix_props(d0);
    let k1 = d1.len() - suffix_after_nl(d1).len();
    let k0 = d0.len() - suffix_after_nl(d0).len();
    assert forall|j: int| p + k0 <= j < d1.len() implies d1[j] != '\n' by {
        assert(d1[j] == d0[j - p]);
    }
    assert(k1 <= p + k0) by {
        if k1 > p + k0 {
            assert(d1[k1 - 1] == '\n');
            assert(k1 - 1 >= p + k0);
        }
    }
    assert(!all_ws(suffix_after_nl(d1))) by {
        assert(!all_ws(suffix_after_nl(d0)));
        let s0 = suffix_after_nl(d0);
        assert(exists|j: int| 0 <= j < s0.len() && !crate::text::is_ws_char(s0[j])) by {
            if forall|j: int| 0 <= j < s0.len() ==> crate::text::is_ws_char(#[trigger] s0[j]) {
                assert(all_ws(s0));
            }
        }
        let j = choose|j: int| 0 <= j < s0.len() && !crate::text::is_ws_char(s0[j]);
        assert(s0[j] == d0[k0 + j]);
        assert(d0[k0 + j] == d1[p + k0 + j]);
        let s1 = suffix_after_nl(d1);
        assert(s1[p + k0 + j - k1] == d1[p + k0 + j]);
        assert(!crate::text::is_ws_char(s1[p + k0 + j - k1]));
    }
    assert(needs_sep(c1));
    assert(install_text(Some(c1), OverwriteAction::Append, stanza) =~= c1 + seq!['\n'] + stanza);
}

/// A repository source entry: its options and an optional pending
/// signing key reference.
#[derive(Debug, Clone)]
pub struct SourceEntry {
    pub options: OptionMap,
    pub key: Option<KeySource>,
}

impl SourceEntry {
    /// Create a new source entry.
    pub fn new(options: OptionMap, key: Option<KeySource>) -> (r: SourceEntry)
        ensures
            r.options == options,
            r.key == key,
    {
        SourceEntry { options, key }
    }

    /// A plan for what installing this entry to the given file will
    /// do, given whether that file exists.
    pub fn plan(&self, file: &SourceFile, exists: bool, action: OverwriteAction) -> (r: Result<
        InstallPlan,
        Error,
    >)
        ensures
            !exists ==> (r matches Ok(p) && p.action == InstallPlanAction::Create && p.path@
                == file_path_spec(*file)),
            exists && action == OverwriteAction::Overwrite ==> (r matches Ok(p) && p.action
                == InstallPlanAction::Overwrite && p.path@ == file_path_spec(*file)),
            exists && action == OverwriteAction::Append ==> (r matches Ok(p) && p.action
                == InstallPlanAction::Append && p.path@ == file_path_spec(*file)),
            exists && action == OverwriteAction::Fail ==> (r matches Err(e) && e matches
                Error::NewSourceFileAlreadyExists { path: q } && q@ == file_path_spec(*file)),
    {
        let path = file.path();
        InstallPlan::new(path.as_str(), exists, action)
    }

    /// The entry the validated `new` arguments describe.
    pub fn from_new(args: &crate::args::NewArgs) -> (r: SourceEntry)
        requires
            args.options.wf(),
        ensures
            r.options.wf(),
            r.options@ == crate::args::new_options_map(
                args.options@,
                args.kinds@,
                args.uris.deep_view(),
                crate::args::opt_str_view(args.description),
                args.suites.deep_view(),
                args.components.deep_view(),
                args.arch.deep_view(),
                args.lang.deep_view(),
                args.disabled,
            ),
            crate::key::key_source_opt_view(r.key) == crate::key::key_source_opt_view(
                args.key.source,
            ),
    {
        SourceEntry {
            options: args.options(),
            key: crate::key::dup_opt_key_source(&args.key.source),
        }
    }

    /// The entry the validated `add` arguments describe, parsed from
    /// their one-line directive.
    pub fn from_add(args: &crate::args::AddArgs) -> (r: Result<SourceEntry, Error>)
        ensures
            r is Ok <==> crate::parse::line_parses(args.line@),
            r matches Ok(e) ==> e.options.wf() && e.options@ == crate::args::add_options_map(
                args.line@,
                args.disabled,
                crate::args::opt_str_view(args.description),
            ) && crate::key::key_source_opt_view(e.key) == crate::key::key_source_opt_view(
                args.key.source,
            ),
            r matches Err(e) ==> e is MalformedOneLineEntry,
    {
        match args.options() {
            Ok(options) => Ok(
                SourceEntry { options, key: crate::key::dup_opt_key_source(&args.key.source) },
            ),
            Err(e) => Err(e),
        }
    }

    /// The deb822 stanza of this entry's options.
    pub fn options_text(&self) -> (r: String)
        requires
            self.options.wf(),
        ensures
            r@ == stanza_of(self.options@),
    {
        render_options(&self.options)
    }

    /// The full content of the target file after installing this
    /// entry, given the existing content of the target (if the target
    /// existed) and the overwrite policy.  Creating and overwriting
    /// write the stanza alone; appending keeps the old content and
    /// separates the new stanza from a non-blank last line by exactly
    /// one newline.
    pub fn install_output(&self, existing: Option<&String>, action: OverwriteAction) -> (r: String)
        requires
            self.options.wf(),
        ensures
            r@ == install_text(content_view(existing), action, stanza_of(self.options@)),
    {
        let stanza = self.options_text();
        match (action, existing) {
            (OverwriteAction::Append, Some(c)) => {
                let mut out = c.clone();
                if content_needs_sep(c.as_str()) {
                    out.append("\n");
                }
                out.append(stanza.as_str());
                proof {
                    reveal_strlit("\n");
                    assert("\n"@ =~= seq!['\n']);
                    assert(out@ =~= c@ + sep_text(c@) + stanza@);
                }
                out
            },
            _ => stanza,
        }
    }
}

} // verus!
