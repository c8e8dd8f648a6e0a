//! The typed option model of a source entry: known and custom option
//! names, tagged option values with their deb822 encodings, and the
//! option map with its canonical serialization order.

use vstd::prelude::*;

use crate::error::Error;
use crate::key::SigningKey;
use crate::text::all_ws;
use crate::text::lex_lt;
use crate::text::lower_eq;

verus! {

use vstd::string::StringExecFns;

/// A recognized option name, as listed for the one-line and deb822
/// syntaxes.
///
/// The variant order here is the canonical order in which the options
/// appear in a serialized source entry.
#[derive(Debug, Clone, Copy, PartialEq, Eq, Hash, Structural)]
pub enum KnownOptionName {
    RepolibName,
    Enabled,
    Types,
    Uris,
    Suites,
    Components,
    SignedBy,
    Trusted,
    Architectures,
    Languages,
    Targets,
    PDiffs,
    ByHash,
    AllowInsecure,
    AllowWeak,
    AllowDowngradeToInsecure,
    CheckValidUntil,
    ValidUntilMin,
    ValidUntilMax,
}

/// The known option names in their canonical serialization order.
pub open spec fn known_order() -> Seq<KnownOptionName> {
    seq![
        KnownOptionName::RepolibName,
        KnownOptionName::Enabled,
        KnownOptionName::Types,
        KnownOptionName::Uris,
        KnownOptionName::Suites,
        KnownOptionName::Components,
        KnownOptionName::SignedBy,
        KnownOptionName::Trusted,
        KnownOptionName::Architectures,
        KnownOptionName::Languages,
        KnownOptionName::Targets,
        KnownOptionName::PDiffs,
        KnownOptionName::ByHash,
        KnownOptionName::AllowInsecure,
        KnownOptionName::AllowWeak,
        KnownOptionName::AllowDowngradeToInsecure,
        KnownOptionName::CheckValidUntil,
        KnownOptionName::ValidUntilMin,
        KnownOptionName::ValidUntilMax,
    ]
}

/// The position of a known option name in the canonical order.
pub open spec fn known_pos(k: KnownOptionName) -> int {
    match k {
        KnownOptionName::RepolibName => 0,
        KnownOptionName::Enabled => 1,
        KnownOptionName::Types => 2,
        KnownOptionName::Uris => 3,
        KnownOptionName::Suites => 4,
        KnownOptionName::Components => 5,
        KnownOptionName::SignedBy => 6,
        KnownOptionName::Trusted => 7,
        KnownOptionName::Architectures => 8,
        KnownOptionName::Languages => 9,
        KnownOptionName::Targets => 10,
        KnownOptionName::PDiffs => 11,
        KnownOptionName::ByHash => 12,
        KnownOptionName::AllowInsecure => 13,
        KnownOptionName::AllowWeak => 14,
        KnownOptionName::AllowDowngradeToInsecure => 15,
        KnownOptionName::CheckValidUntil => 16,
        KnownOptionName::ValidUntilMin => 17,
        KnownOptionName::ValidUntilMax => 18,
    }
}

/// `known_pos` is exactly the index in `known_order`.
pub proof fn lemma_known_order_pos()
    ensures
        known_order().len() == 19,
        forall|k: KnownOptionName|
            0 <= #[trigger] known_pos(k) < 19 && known_order()[known_pos(k)] == k,
{
    assert forall|k: KnownOptionName|
        0 <= #[trigger] known_pos(k) < 19 && known_order()[known_pos(k)] == k by {
        match k {
            KnownOptionName::RepolibName => assert(known_order()[0] == k),
            KnownOptionName::Enabled => assert(known_order()[1] == k),
            KnownOptionName::Types => assert(known_order()[2] == k),
            KnownOptionName::Uris => assert(known_order()[3] == k),
            KnownOptionName::Suites => assert(known_order()[4] == k),
            KnownOptionName::Components => assert(known_order()[5] == k),
            KnownOptionName::SignedBy => assert(known_order()[6] == k),
            KnownOptionName::Trusted => assert(known_order()[7] == k),
            KnownOptionName::Architectures => assert(known_order()[8] == k),
            KnownOptionName::Languages => assert(known_order()[9] == k),
            KnownOptionName::Targets => assert(known_order()[10] == k),
            KnownOptionName::PDiffs => assert(known_order()[11] == k),
            KnownOptionName::ByHash => assert(known_order()[12] == k),
            KnownOptionName::AllowInsecure => assert(known_order()[13] == k),
            KnownOptionName::AllowWeak => assert(known_order()[14] == k),
            KnownOptionName::AllowDowngradeToInsecure => assert(known_order()[15] == k),
            KnownOptionName::CheckValidUntil => assert(known_order()[16] == k),
            KnownOptionName::ValidUntilMin => assert(known_order()[17] == k),
            KnownOptionName::ValidUntilMax => assert(known_order()[18] == k),
        }
    }
}

/// The canonical deb822 spelling of a known option name.
pub open spec fn known_display(k: KnownOptionName) -> Seq<char> {
    match k {
        KnownOptionName::Types => "Types"@,
        KnownOptionName::Uris => "URIs"@,
        KnownOptionName::Suites => "Suites"@,
        KnownOptionName::Components => "Components"@,
        KnownOptionName::Enabled => "Enabled"@,
        KnownOptionName::Architectures => "Architectures"@,
        KnownOptionName::Languages => "Languages"@,
        KnownOptionName::Targets => "Targets"@,
        KnownOptionName::PDiffs => "PDiffs"@,
        KnownOptionName::ByHash => "By-Hash"@,
        KnownOptionName::AllowInsecure => "Allow-Insecure"@,
        KnownOptionName::AllowWeak => "Allow-Weak"@,
        KnownOptionName::AllowDowngradeToInsecure => "Allow-Downgrade-To-Insecure"@,
        KnownOptionName::Trusted => "Trusted"@,
        KnownOptionName::SignedBy => "Signed-By"@,
        KnownOptionName::CheckValidUntil => "Check-Valid-Until"@,
        KnownOptionName::ValidUntilMin => "Valid-Until-Min"@,
        KnownOptionName::ValidUntilMax => "Valid-Until-Max"@,
        KnownOptionName::RepolibName => "X-Repolib-Name"@,
    }
}

/// The known option name an input spelling resolves to, if any.
///
/// Input spellings are matched without regard for ASCII case, and a few
/// options also accept the short aliases of the one-line syntax.
pub open spec fn known_name_of(s: Seq<char>) -> Option<KnownOptionName> {
    if lower_eq(s, "types"@) {
        Some(KnownOptionName::Types)
    } else if lower_eq(s, "uris"@) {
        Some(KnownOptionName::Uris)
    } else if lower_eq(s, "suites"@) {
        Some(KnownOptionName::Suites)
    } else if lower_eq(s, "components"@) {
        Some(KnownOptionName::Components)
    } else if lower_eq(s, "enabled"@) {
        Some(KnownOptionName::Enabled)
    } else if lower_eq(s, "architectures"@) || lower_eq(s, "arch"@) {
        Some(KnownOptionName::Architectures)
    } else if lower_eq(s, "languages"@) || lower_eq(s, "lang"@) {
        Some(KnownOptionName::Languages)
    } else if lower_eq(s, "targets"@) || lower_eq(s, "target"@) {
        Some(KnownOptionName::Targets)
    } else if lower_eq(s, "pdiffs"@) {
        Some(KnownOptionName::PDiffs)
    } else if lower_eq(s, "by-hash"@) {
        Some(KnownOptionName::ByHash)
    } else if lower_eq(s, "allow-insecure"@) {
        Some(KnownOptionName::AllowInsecure)
    } else if lower_eq(s, "allow-weak"@) {
        Some(KnownOptionName::AllowWeak)
    } else if lower_eq(s, "allow-downgrade-to-insecure"@) {
        Some(KnownOptionName::AllowDowngradeToInsecure)
    } else if lower_eq(s, "trusted"@) {
        Some(KnownOptionName::Trusted)
    } else if lower_eq(s, "signed-by"@) {
        Some(KnownOptionName::SignedBy)
    } else if lower_eq(s, "check-valid-until"@) {
        Some(KnownOptionName::CheckValidUntil)
    } else if lower_eq(s, "valid-until-min"@) {
        Some(KnownOptionName::ValidUntilMin)
    } else if lower_eq(s, "valid-until-max"@) {
        Some(KnownOptionName::ValidUntilMax)
    } else {
        None
    }
}

impl KnownOptionName {
    /// The option name in deb822 syntax.
    pub fn to_deb822(self) -> (r: &'static str)
        ensures
            r@ == known_display(self),
    {
        match self {
            KnownOptionName::Types => "Types",
            KnownOptionName::Uris => "URIs",
            KnownOptionName::Suites => "Suites",
            KnownOptionName::Components => "Components",
            KnownOptionName::Enabled => "Enabled",
            KnownOptionName::Architectures => "Architectures",
            KnownOptionName::Languages => "Languages",
            KnownOptionName::Targets => "Targets",
            KnownOptionName::PDiffs => "PDiffs",
            KnownOptionName::ByHash => "By-Hash",
            KnownOptionName::AllowInsecure => "Allow-Insecure",
            KnownOptionName::AllowWeak => "Allow-Weak",
            KnownOptionName::AllowDowngradeToInsecure => "Allow-Downgrade-To-Insecure",
            KnownOptionName::Trusted => "Trusted",
            KnownOptionName::SignedBy => "Signed-By",
            KnownOptionName::CheckValidUntil => "Check-Valid-Until",
            KnownOptionName::ValidUntilMin => "Valid-Until-Min",
            KnownOptionName::ValidUntilMax => "Valid-Until-Max",
            KnownOptionName::RepolibName => "X-Repolib-Name",
        }
    }

    /// Resolve an input spelling to a known option name.
    ///
    /// Returns the invalid-option-name error when the spelling is not
    /// recognized.
    pub fn from_str(s: &str) -> (r: Result<KnownOptionName, Error>)
        ensures
            r is Ok <==> known_name_of(s@) is Some,
            r matches Ok(k) ==> known_name_of(s@) == Some(k),
            r matches Err(e) ==> (e matches Error::InvalidOptionName { name } && name@ == s@),
    {
        if crate::text::eq_ignore_case(s, "types") {
            Ok(KnownOptionName::Types)
        } else if crate::text::eq_ignore_case(s, "uris") {
            Ok(KnownOptionName::Uris)
        } else if crate::text::eq_ignore_case(s, "suites") {
            Ok(KnownOptionName::Suites)
        } else if crate::text::eq_ignore_case(s, "components") {
            Ok(KnownOptionName::Components)
        } else if crate::text::eq_ignore_case(s, "enabled") {
            Ok(KnownOptionName::Enabled)
        } else if crate::text::eq_ignore_case(s, "architectures") || crate::text::eq_ignore_case(
            s,
            "arch",
        ) {
            Ok(KnownOptionName::Architectures)
        } else if crate::text::eq_ignore_case(s, "languages") || crate::text::eq_ignore_case(
            s,
            "lang",
        ) {
            Ok(KnownOptionName::Languages)
        } else if crate::text::eq_ignore_case(s, "targets") || crate::text::eq_ignore_case(
            s,
            "target",
        ) {
            Ok(KnownOptionName::Targets)
        } else if crate::text::eq_ignore_case(s, "pdiffs") {
            Ok(KnownOptionName::PDiffs)
        } else if crate::text::eq_ignore_case(s, "by-hash") {
            Ok(KnownOptionName::ByHash)
        } else if crate::text::eq_ignore_case(s, "allow-insecure") {
            Ok(KnownOptionName::AllowInsecure)
        } else if crate::text::eq_ignore_case(s, "allow-weak") {
            Ok(KnownOptionName::AllowWeak)
        } else if crate::text::eq_ignore_case(s, "allow-downgrade-to-insecure") {
            Ok(KnownOptionName::AllowDowngradeToInsecure)
        } else if crate::text::eq_ignore_case(s, "trusted") {
            Ok(KnownOptionName::Trusted)
        } else if crate::text::eq_ignore_case(s, "signed-by") {
            Ok(KnownOptionName::SignedBy)
        } else if crate::text::eq_ignore_case(s, "check-valid-until") {
            Ok(KnownOptionName::CheckValidUntil)
        } else if crate::text::eq_ignore_case(s, "valid-until-min") {
            Ok(KnownOptionName::ValidUntilMin)
        } else if crate::text::eq_ignore_case(s, "valid-until-max") {
            Ok(KnownOptionName::ValidUntilMax)
        } else {
            Err(Error::InvalidOptionName { name: String::from_str(s) })
        }
    }

    /// The known option names, in canonical order.
    pub fn known_list() -> (r: Vec<KnownOptionName>)
        ensures
            r@ == known_order(),
    {
        let mut v: Vec<KnownOptionName> = Vec::new();
        v.push(KnownOptionName::RepolibName);
        v.push(KnownOptionName::Enabled);
        v.push(KnownOptionName::Types);
        v.push(KnownOptionName::Uris);
        v.push(KnownOptionName::Suites);
        v.push(KnownOptionName::Components);
        v.push(KnownOptionName::SignedBy);
        v.push(KnownOptionName::Trusted);
        v.push(KnownOptionName::Architectures);
        v.push(KnownOptionName::Languages);
        v.push(KnownOptionName::Targets);
        v.push(KnownOptionName::PDiffs);
        v.push(KnownOptionName::ByHash);
        v.push(KnownOptionName::AllowInsecure);
        v.push(KnownOptionName::AllowWeak);
        v.push(KnownOptionName::AllowDowngradeToInsecure);
        v.push(KnownOptionName::CheckValidUntil);
        v.push(KnownOptionName::ValidUntilMin);
        v.push(KnownOptionName::ValidUntilMax);
        proof {
            assert(v@ =~= known_order());
        }
        v
    }
}

/// The name of an option in a source entry.
#[derive(Debug, Clone, PartialEq, Eq, Hash)]
pub enum OptionName {
    /// A recognized option name.
    Known(KnownOptionName),
    /// A custom option name supplied literally by the caller.
    Custom(String),
}

/// The mathematical view of an option name.
pub enum OptionNameV {
    Known(KnownOptionName),
    Custom(Seq<char>),
}

impl View for OptionName {
    type V = OptionNameV;

    open spec fn view(&self) -> OptionNameV {
        match self {
            OptionName::Known(k) => OptionNameV::Known(*k),
            OptionName::Custom(s) => OptionNameV::Custom(s@),
        }
    }
}

/// The canonical deb822 spelling of an option name.
pub open spec fn name_display(n: OptionNameV) -> Seq<char> {
    match n {
        OptionNameV::Known(k) => known_display(k),
        OptionNameV::Custom(s) => s,
    }
}

/// The canonical serialization order on option names: known names in
/// their fixed order, then custom names lexicographically.
pub open spec fn name_lt(a: OptionNameV, b: OptionNameV) -> bool {
    match (a, b) {
        (OptionNameV::Known(x), OptionNameV::Known(y)) => known_pos(x) < known_pos(y),
        (OptionNameV::Known(_), OptionNameV::Custom(_)) => true,
        (OptionNameV::Custom(_), OptionNameV::Known(_)) => false,
        (OptionNameV::Custom(x), OptionNameV::Custom(y)) => lex_lt(x, y),
    }
}

/// The canonical order is transitive.
pub proof fn lemma_name_lt_trans(a: OptionNameV, b: OptionNameV, c: OptionNameV)
    requires
        name_lt(a, b),
        name_lt(b, c),
    ensures
        name_lt(a, c),
{
    match (a, b, c) {
        (OptionNameV::Custom(x), OptionNameV::Custom(y), OptionNameV::Custom(z)) => {
            crate::text::lemma_lex_lt_trans(x, y, z);
        },
        _ => {},
    }
}

/// The canonical order is strict and total.
pub proof fn lemma_name_lt_total(a: OptionNameV, b: OptionNameV)
    ensures
        !(name_lt(a, b) && name_lt(b, a)),
        a != b ==> name_lt(a, b) || name_lt(b, a),
{
    match (a, b) {
        (OptionNameV::Custom(x), OptionNameV::Custom(y)) => {
            crate::text::lemma_lex_lt_total(x, y);
        },
        _ => {},
    }
}

impl OptionName {
    /// Whether this is a known option name.
    pub fn is_known(&self) -> (r: bool)
        ensures
            r == (self@ is Known),
    {
        match self {
            OptionName::Known(_) => true,
            OptionName::Custom(_) => false,
        }
    }

    /// The option name in deb822 syntax.
    pub fn to_deb822(&self) -> (r: &str)
        ensures
            r@ == name_display(self@),
    {
        match self {
            OptionName::Known(k) => k.to_deb822(),
            OptionName::Custom(s) => s.as_str(),
        }
    }

    /// An option name for a known option.
    pub fn from_known(k: KnownOptionName) -> (r: OptionName)
        ensures
            r@ == OptionNameV::Known(k),
    {
        OptionName::Known(k)
    }
}

/// The known option name standing at a position of the canonical order.
pub(crate) fn known_at(i: usize) -> (r: KnownOptionName)
    requires
        i < 19,
    ensures
        known_pos(r) == i as int,
{
    match i {
        0 => KnownOptionName::RepolibName,
        1 => KnownOptionName::Enabled,
        2 => KnownOptionName::Types,
        3 => KnownOptionName::Uris,
        4 => KnownOptionName::Suites,
        5 => KnownOptionName::Components,
        6 => KnownOptionName::SignedBy,
        7 => KnownOptionName::Trusted,
        8 => KnownOptionName::Architectures,
        9 => KnownOptionName::Languages,
        10 => KnownOptionName::Targets,
        11 => KnownOptionName::PDiffs,
        12 => KnownOptionName::ByHash,
        13 => KnownOptionName::AllowInsecure,
        14 => KnownOptionName::AllowWeak,
        15 => KnownOptionName::AllowDowngradeToInsecure,
        16 => KnownOptionName::CheckValidUntil,
        17 => KnownOptionName::ValidUntilMin,
        _ => KnownOptionName::ValidUntilMax,
    }
}

/// The position of a known option name in the canonical order.
pub(crate) fn known_pos_exec(k: KnownOptionName) -> (r: usize)
    ensures
        r as int == known_pos(k),
{
    match k {
        KnownOptionName::RepolibName => 0,
        KnownOptionName::Enabled => 1,
        KnownOptionName::Types => 2,
        KnownOptionName::Uris => 3,
        KnownOptionName::Suites => 4,
        KnownOptionName::Components => 5,
        KnownOptionName::SignedBy => 6,
        KnownOptionName::Trusted => 7,
        KnownOptionName::Architectures => 8,
        KnownOptionName::Languages => 9,
        KnownOptionName::Targets => 10,
        KnownOptionName::PDiffs => 11,
        KnownOptionName::ByHash => 12,
        KnownOptionName::AllowInsecure => 13,
        KnownOptionName::AllowWeak => 14,
        KnownOptionName::AllowDowngradeToInsecure => 15,
        KnownOptionName::CheckValidUntil => 16,
        KnownOptionName::ValidUntilMin => 17,
        KnownOptionName::ValidUntilMax => 18,
    }
}

/// Whether `a` comes strictly before `b` in the canonical order.
pub(crate) fn name_lt_exec(a: &OptionName, b: &OptionName) -> (r: bool)
    ensures
        r == name_lt(a@, b@),
{
    match (a, b) {
        (OptionName::Known(x), OptionName::Known(y)) => known_pos_exec(*x) < known_pos_exec(*y),
        (OptionName::Known(_), OptionName::Custom(_)) => true,
        (OptionName::Custom(_), OptionName::Known(_)) => false,
        (OptionName::Custom(x), OptionName::Custom(y)) => crate::text::str_lex_lt(
            x.as_str(),
            y.as_str(),
        ),
    }
}

/// Whether two option names are the same name.
pub(crate) fn name_eq(a: &OptionName, b: &OptionName) -> (r: bool)
    ensures
        r == (a@ == b@),
{
    match (a, b) {
        (OptionName::Known(x), OptionName::Known(y)) => *x == *y,
        (OptionName::Custom(x), OptionName::Custom(y)) => crate::text::str_eq(
            x.as_str(),
            y.as_str(),
        ),
        _ => false,
    }
}

/// An owned copy of an option name.
pub(crate) fn dup_name(n: &OptionName) -> (r: OptionName)
    ensures
        r@ == n@,
{
    match n {
        OptionName::Known(k) => OptionName::Known(*k),
        OptionName::Custom(s) => OptionName::Custom(s.clone()),
    }
}

/// Whether a token spells a true boolean value.
pub open spec fn is_truthy_spec(s: Seq<char>) -> bool {
    lower_eq(s, "yes"@) || lower_eq(s, "true"@)
}

/// Whether a token spells a false boolean value.
pub open spec fn is_falsey_spec(s: Seq<char>) -> bool {
    lower_eq(s, "no"@) || lower_eq(s, "false"@)
}

/// Whether this option value token represents a true boolean value.
pub fn is_truthy(s: &str) -> (r: bool)
    ensures
        r == is_truthy_spec(s@),
{
    crate::text::eq_ignore_case(s, "yes") || crate::text::eq_ignore_case(s, "true")
}

/// Whether this option value token represents a false boolean value.
pub fn is_falsey(s: &str) -> (r: bool)
    ensures
        r == is_falsey_spec(s@),
{
    crate::text::eq_ignore_case(s, "no") || crate::text::eq_ignore_case(s, "false")
}

/// An option name paired with its value.
pub type OptionPair = (OptionName, OptionValue);

/// The value of an option in a source entry.
#[derive(Debug, Clone, PartialEq, Eq)]
pub enum OptionValue {
    /// A free-form string.
    Text(String),
    /// An ordered list, serialized space-joined.
    List(Vec<String>),
    /// A boolean, serialized as `yes` or `no`.
    Bool(bool),
    /// A multi-line block, used only for inlined key material.
    Multiline(Vec<String>),
}

/// The mathematical view of an option value.
pub enum OptionValueV {
    Text(Seq<char>),
    List(Seq<Seq<char>>),
    Bool(bool),
    Multiline(Seq<Seq<char>>),
}

impl View for OptionValue {
    type V = OptionValueV;

    open spec fn view(&self) -> OptionValueV {
        match self {
            OptionValue::Text(s) => OptionValueV::Text(s@),
            OptionValue::List(l) => OptionValueV::List(l.deep_view()),
            OptionValue::Bool(b) => OptionValueV::Bool(*b),
            OptionValue::Multiline(l) => OptionValueV::Multiline(l.deep_view()),
        }
    }
}

/// Whether a value is "empty": blank text or a list with no elements.
/// Booleans are never empty.  Empty values are never inserted into an
/// option map.
pub open spec fn empty_value(v: OptionValueV) -> bool {
    match v {
        OptionValueV::Text(s) => all_ws(s),
        OptionValueV::List(l) => l.len() == 0,
        OptionValueV::Bool(_) => false,
        OptionValueV::Multiline(l) => l.len() == 0,
    }
}

/// The value a single raw token stands for: `yes`/`true` and
/// `no`/`false` become booleans, anything else is text.
pub open spec fn value_of_token(t: Seq<char>) -> OptionValueV {
    if is_truthy_spec(t) {
        OptionValueV::Bool(true)
    } else if is_falsey_spec(t) {
        OptionValueV::Bool(false)
    } else {
        OptionValueV::Text(t)
    }
}

/// The value a list of raw tokens stands for: a one-element list
/// collapses to the value of its single token.
pub open spec fn value_of_list(l: Seq<Seq<char>>) -> OptionValueV {
    if l.len() == 1 {
        value_of_token(l[0])
    } else {
        OptionValueV::List(l)
    }
}

/// The space-joined text of the list elements from index `i` on.
pub open spec fn join_from(l: Seq<Seq<char>>, i: int) -> Seq<char>
    decreases l.len() - i,
{
    if i < 0 || i >= l.len() {
        seq![]
    } else if i == l.len() - 1 {
        l[i]
    } else {
        l[i] + seq![' '] + join_from(l, i + 1)
    }
}

/// The continuation lines of a multiline block from index `i` on: each
/// line prefixed with one space, blank lines escaped with a dot.
pub open spec fn ml_from(l: Seq<Seq<char>>, i: int) -> Seq<char>
    decreases l.len() - i,
{
    if i < 0 || i >= l.len() {
        seq![]
    } else {
        seq![' '] + (if all_ws(l[i]) {
            seq!['.']
        } else {
            l[i]
        }) + seq!['\n'] + ml_from(l, i + 1)
    }
}

/// The deb822 encoding of an option value.
pub open spec fn value_deb822(v: OptionValueV) -> Seq<char> {
    match v {
        OptionValueV::Text(s) => s,
        OptionValueV::List(l) => join_from(l, 0),
        OptionValueV::Bool(b) => if b {
            "yes"@
        } else {
            "no"@
        },
        OptionValueV::Multiline(l) => seq!['\n'] + ml_from(l, 0),
    }
}

impl OptionValue {
    /// The value an owned raw string stands for.
    pub fn from_string(value: String) -> (r: OptionValue)
        ensures
            r@ == value_of_token(value@),
    {
        if is_truthy(value.as_str()) {
            OptionValue::Bool(true)
        } else if is_falsey(value.as_str()) {
            OptionValue::Bool(false)
        } else {
            OptionValue::Text(value)
        }
    }

    /// The value a raw string slice stands for.
    pub fn from_str_value(value: &str) -> (r: OptionValue)
        ensures
            r@ == value_of_token(value@),
    {
        Self::from_string(String::from_str(value))
    }

    /// The value a list of raw tokens stands for.
    pub fn from_list(values: Vec<String>) -> (r: OptionValue)
        ensures
            r@ == value_of_list(values.deep_view()),
    {
        let mut values = values;
        if values.len() == 1 {
            let single = values.remove(0);
            Self::from_string(single)
        } else {
            OptionValue::List(values)
        }
    }

    /// The value of a boolean option.
    pub fn from_bool(value: bool) -> (r: OptionValue)
        ensures
            r@ == OptionValueV::Bool(value),
    {
        OptionValue::Bool(value)
    }

    /// Whether this value is "empty".
    ///
    /// Empty values are not included in a source entry.
    pub fn is_empty(&self) -> (r: bool)
        ensures
            r == empty_value(self@),
    {
        match self {
            OptionValue::Text(value) => crate::text::str_all_ws(value.as_str()),
            OptionValue::List(list) => list.len() == 0,
            OptionValue::Bool(_) => false,
            OptionValue::Multiline(list) => list.len() == 0,
        }
    }

    /// The option value in deb822 syntax.
    pub fn to_deb822(&self) -> (r: String)
        ensures
            r@ == value_deb822(self@),
    {
        match self {
            OptionValue::Text(value) => value.clone(),
            OptionValue::Bool(b) => {
                if *b {
                    String::from_str("yes")
                } else {
                    String::from_str("no")
                }
            },
            OptionValue::List(list) => {
                let ghost dv = list.deep_view();
                let mut out = String::new();
                let mut i: usize = 0;
                while i < list.len()
                    invariant
                        0 <= i <= list@.len(),
                        dv == list.deep_view(),
                        dv.len() == list@.len(),
                        out@ + join_from(dv, i as int) == join_from(dv, 0),
                    decreases list@.len() - i,
                {
                    let ghost old_out = out@;
                    out.append(list[i].as_str());
                    if i + 1 < list.len() {
                        out.append(" ");
                        proof {
                            reveal_strlit(" ");
                            assert(" "@ =~= seq![' ']);
                            assert(out@ =~= old_out + dv[i as int] + seq![' ']);
                            assert(out@ + join_from(dv, i + 1) =~= old_out + join_from(
                                dv,
                                i as int,
                            ));
                        }
                    } else {
                        proof {
                            assert(join_from(dv, i as int) == dv[i as int]);
                            assert(out@ + join_from(dv, i + 1) =~= old_out + join_from(
                                dv,
                                i as int,
                            ));
                        }
                    }
                    i = i + 1;
                }
                proof {
                    assert(out@ + join_from(dv, list@.len() as int) =~= out@);
                }
                out
            },
            OptionValue::Multiline(list) => {
                let ghost dv = list.deep_view();
                let mut out = String::from_str("\n");
                proof {
                    reveal_strlit("\n");
                    assert(out@ =~= seq!['\n']);
                }
                let mut i: usize = 0;
                while i < list.len()
                    invariant
                        0 <= i <= list@.len(),
                        dv == list.deep_view(),
                        dv.len() == list@.len(),
                        out@ + ml_from(dv, i as int) == seq!['\n'] + ml_from(dv, 0),
                    decreases list@.len() - i,
                {
                    let ghost old_out = out@;
                    out.append(" ");
                    if crate::text::str_all_ws(list[i].as_str()) {
                        out.append(".");
                    } else {
                        out.append(list[i].as_str());
                    }
                    out.append("\n");
                    proof {
                        reveal_strlit(" ");
                        reveal_strlit(".");
                        reveal_strlit("\n");
                        assert(" "@ =~= seq![' ']);
                        assert("."@ =~= seq!['.']);
                        assert("\n"@ =~= seq!['\n']);
                        assert(out@ =~= old_out + seq![' '] + (if all_ws(dv[i as int]) {
                            seq!['.']
                        } else {
                            dv[i as int]
                        }) + seq!['\n']);
                        assert(out@ + ml_from(dv, i + 1) =~= old_out + ml_from(dv, i as int));
                    }
                    i = i + 1;
                }
                proof {
                    assert(out@ + ml_from(dv, list@.len() as int) =~= out@);
                }
                out
            },
        }
    }
}

/// An owned copy of a vector of strings.
pub(crate) fn dup_strings(v: &Vec<String>) -> (r: Vec<String>)
    ensures
        r.deep_view() == v.deep_view(),
{
    let mut out: Vec<String> = Vec::new();
    let mut i: usize = 0;
    while i < v.len()
        invariant
            0 <= i <= v@.len(),
            out.deep_view() =~= v.deep_view().take(i as int),
        decreases v@.len() - i,
    {
        let ghost old_dv = out.deep_view();
        out.push(v[i].clone());
        proof {
            assert(out.deep_view() =~= old_dv + seq![v.deep_view()[i as int]]);
            assert(out.deep_view() =~= v.deep_view().take(i + 1));
        }
        i = i + 1;
    }
    proof {
        assert(v.deep_view().take(v@.len() as int) =~= v.deep_view());
    }
    out
}

/// An owned copy of an option value.
pub(crate) fn dup_value(v: &OptionValue) -> (r: OptionValue)
    ensures
        r@ == v@,
{
    match v {
        OptionValue::Text(s) => OptionValue::Text(s.clone()),
        OptionValue::List(l) => OptionValue::List(dup_strings(l)),
        OptionValue::Bool(b) => OptionValue::Bool(*b),
        OptionValue::Multiline(l) => OptionValue::Multiline(dup_strings(l)),
    }
}

/// The views of a sequence of stored option pairs.
pub open spec fn pairs_view(s: Seq<(OptionName, OptionValue)>) -> Seq<(OptionNameV, OptionValueV)> {
    s.map_values(|p: (OptionName, OptionValue)| (p.0@, p.1@))
}

/// Whether some pair of `s` has the key `k`.
pub open spec fn has_key(s: Seq<(OptionNameV, OptionValueV)>, k: OptionNameV) -> bool {
    exists|i: int| 0 <= i < s.len() && (#[trigger] s[i]).0 == k
}

/// The value a pair of `s` with key `k` holds.
pub open spec fn value_at(s: Seq<(OptionNameV, OptionValueV)>, k: OptionNameV) -> OptionValueV {
    s[choose|i: int| 0 <= i < s.len() && (#[trigger] s[i]).0 == k].1
}

/// The association map a sequence of pairs stands for.
pub open spec fn assoc_map(s: Seq<(OptionNameV, OptionValueV)>) -> Map<OptionNameV, OptionValueV> {
    Map::new(|k: OptionNameV| has_key(s, k), |k: OptionNameV| value_at(s, k))
}

/// No two pairs of `s` share a key.
pub open spec fn distinct_keys(s: Seq<(OptionNameV, OptionValueV)>) -> bool {
    forall|i: int, j: int| 0 <= i < j < s.len() ==> (#[trigger] s[i]).0 != (#[trigger] s[j]).0
}

/// With distinct keys, the pair at any index with key `k` gives the
/// value of `k` in the association map.
pub proof fn lemma_value_at(s: Seq<(OptionNameV, OptionValueV)>, k: OptionNameV, i: int)
    requires
        distinct_keys(s),
        0 <= i < s.len(),
        s[i].0 == k,
    ensures
        has_key(s, k),
        value_at(s, k) == s[i].1,
{
    assert(has_key(s, k));
    let j = choose|j: int| 0 <= j < s.len() && (#[trigger] s[j]).0 == k;
    if j != i {
        if j < i {
            assert(s[j].0 != s[i].0);
        } else {
            assert(s[i].0 != s[j].0);
        }
    }
}

/// Appending a pair with a fresh key inserts it into the association map.
pub proof fn lemma_assoc_push(s: Seq<(OptionNameV, OptionValueV)>, k: OptionNameV, v: OptionValueV)
    requires
        distinct_keys(s),
        !has_key(s, k),
    ensures
        distinct_keys(s.push((k, v))),
        assoc_map(s.push((k, v))) == assoc_map(s).insert(k, v),
{
    let s2 = s.push((k, v));
    assert forall|i: int, j: int| 0 <= i < j < s2.len() implies (#[trigger] s2[i]).0 != (
    #[trigger] s2[j]).0 by {
        if j < s.len() {
            assert(s2[i] == s[i] && s2[j] == s[j]);
        } else {
            assert(s2[j] == (k, v));
            assert(s2[i] == s[i]);
            if s[i].0 == k {
                assert(has_key(s, k));
            }
        }
    }
    assert forall|k2: OptionNameV| true implies #[trigger] has_key(s2, k2) == (has_key(s, k2) || k2
        == k) by {
        if has_key(s2, k2) {
            let i = choose|i: int| 0 <= i < s2.len() && (#[trigger] s2[i]).0 == k2;
            if i < s.len() {
                assert(s[i].0 == k2);
            } else {
                assert(k2 == k);
            }
        }
        if has_key(s, k2) {
            let i = choose|i: int| 0 <= i < s.len() && (#[trigger] s[i]).0 == k2;
            assert(s2[i].0 == k2);
        }
        if k2 == k {
            assert(s2[s.len() as int].0 == k2);
        }
    }
    assert forall|k2: OptionNameV| has_key(s2, k2) implies value_at(s2, k2) == (if k2 == k {
        v
    } else {
        value_at(s, k2)
    }) by {
        if k2 == k {
            lemma_value_at(s2, k2, s.len() as int);
        } else {
            let i = choose|i: int| 0 <= i < s.len() && (#[trigger] s[i]).0 == k2;
            assert(s2[i].0 == k2);
            lemma_value_at(s2, k2, i);
            lemma_value_at(s, k2, i);
        }
    }
    assert(assoc_map(s.push((k, v))) =~= assoc_map(s).insert(k, v));
}

/// Removing the pair at an index removes its key from the association map.
pub proof fn lemma_assoc_remove(s: Seq<(OptionNameV, OptionValueV)>, i: int)
    requires
        distinct_keys(s),
        0 <= i < s.len(),
    ensures
        distinct_keys(s.remove(i)),
        assoc_map(s.remove(i)) == assoc_map(s).remove(s[i].0),
{
    let s2 = s.remove(i);
    let k = s[i].0;
    assert forall|a: int, b: int| 0 <= a < b < s2.len() implies (#[trigger] s2[a]).0 != (
    #[trigger] s2[b]).0 by {
        let a0 = if a < i {
            a
        } else {
            a + 1
        };
        let b0 = if b < i {
            b
        } else {
            b + 1
        };
        assert(s2[a] == s[a0] && s2[b] == s[b0]);
    }
    assert forall|k2: OptionNameV| true implies #[trigger] has_key(s2, k2) == (has_key(s, k2) && k2
        != k) by {
        if has_key(s2, k2) {
            let j = choose|j: int| 0 <= j < s2.len() && (#[trigger] s2[j]).0 == k2;
            let j0 = if j < i {
                j
            } else {
                j + 1
            };
            assert(s[j0].0 == k2);
            if k2 == k {
                if j0 < i {
                    assert(s[j0].0 != s[i].0);
                } else {
                    assert(s[i].0 != s[j0].0);
                }
            }
        }
        if has_key(s, k2) && k2 != k {
            let j = choose|j: int| 0 <= j < s.len() && (#[trigger] s[j]).0 == k2;
            if j < i {
                assert(s2[j].0 == k2);
            } else {
                assert(j > i);
                assert(s2[j - 1].0 == k2);
            }
        }
    }
    assert forall|k2: OptionNameV| has_key(s2, k2) implies value_at(s2, k2) == value_at(s, k2) by {
        let j = choose|j: int| 0 <= j < s2.len() && (#[trigger] s2[j]).0 == k2;
        let j0 = if j < i {
            j
        } else {
            j + 1
        };
        assert(s2[j] == s[j0]);
        lemma_value_at(s2, k2, j);
        lemma_value_at(s, k2, j0);
    }
    assert(assoc_map(s.remove(i)) =~= assoc_map(s).remove(k));
}

/// The effect of inserting an option into a map: an empty value leaves
/// the map unchanged, any other value is stored under its name,
/// replacing an existing value.
pub open spec fn spec_insert(
    m: Map<OptionNameV, OptionValueV>,
    n: OptionNameV,
    v: OptionValueV,
) -> Map<OptionNameV, OptionValueV> {
    if empty_value(v) {
        m
    } else {
        m.insert(n, v)
    }
}

/// Inserting an empty value never changes the map: empty values are
/// suppressed, so no key with an empty value ever appears in a map or
/// in its canonical listing.
pub proof fn lemma_empty_value_suppressed(
    m: Map<OptionNameV, OptionValueV>,
    n: OptionNameV,
    v: OptionValueV,
)
    requires
        empty_value(v),
    ensures
        spec_insert(m, n, v) == m,
{
}

/// A map built by insertions never holds an empty value, so no listed
/// option ever carries one: inserting preserves the absence of empty
/// values.
pub proof fn lemma_no_empty_values(
    m: Map<OptionNameV, OptionValueV>,
    n: OptionNameV,
    v: OptionValueV,
)
    requires
        forall|k: OptionNameV| #[trigger] m.dom().contains(k) ==> !empty_value(m[k]),
    ensures
        forall|k: OptionNameV|
            #[trigger] spec_insert(m, n, v).dom().contains(k) ==> !empty_value(
                spec_insert(m, n, v)[k],
            ),
{
}

/// Options with different names can be inserted in either order: the
/// resulting map is the same.  Together with the uniqueness of the
/// canonical listing, the serialized bytes of a map built by inserting
/// a set of distinctly named options do not depend on the insertion
/// order.
pub proof fn lemma_insert_commutes(
    m: Map<OptionNameV, OptionValueV>,
    n1: OptionNameV,
    v1: OptionValueV,
    n2: OptionNameV,
    v2: OptionValueV,
)
    requires
        n1 != n2,
    ensures
        spec_insert(spec_insert(m, n1, v1), n2, v2) == spec_insert(spec_insert(m, n2, v2), n1, v1),
{
    if !empty_value(v1) && !empty_value(v2) {
        assert(m.insert(n1, v1).insert(n2, v2) =~= m.insert(n2, v2).insert(n1, v1));
    }
}

/// A map of option names and their values.
///
/// The internal store is unordered; the canonical serialization order
/// is derived only when the options are listed.
#[derive(Debug, Clone, PartialEq, Eq)]
pub struct OptionMap {
    entries: Vec<(OptionName, OptionValue)>,
}

impl View for OptionMap {
    type V = Map<OptionNameV, OptionValueV>;

    closed spec fn view(&self) -> Map<OptionNameV, OptionValueV> {
        assoc_map(pairs_view(self.entries@))
    }
}

impl OptionMap {
    /// Well-formedness: no two stored pairs share a key.
    pub closed spec fn wf(&self) -> bool {
        distinct_keys(pairs_view(self.entries@))
    }

    /// An empty option map.
    pub fn new() -> (r: OptionMap)
        ensures
            r@ == Map::<OptionNameV, OptionValueV>::empty(),
            r.wf(),
    {
        let r = OptionMap { entries: Vec::new() };
        proof {
            assert(r@ =~= Map::<OptionNameV, OptionValueV>::empty());
        }
        r
    }

    /// The index of the stored pair with the given name, if any.
    fn find_index(&self, name: &OptionName) -> (r: Option<usize>)
        ensures
            match r {
                Some(i) => i < self.entries@.len() && self.entries@[i as int].0@ == name@,
                None => forall|i: int|
                    0 <= i < self.entries@.len() ==> (#[trigger] self.entries@[i]).0@ != name@,
            },
    {
        let mut i: usize = 0;
        while i < self.entries.len()
            invariant
                0 <= i <= self.entries@.len(),
                forall|t: int| 0 <= t < i ==> (#[trigger] self.entries@[t]).0@ != name@,
            decreases self.entries@.len() - i,
        {
            if name_eq(&self.entries[i].0, name) {
                return Some(i);
            }
            i = i + 1;
        }
        None
    }

    /// Insert the given option into the map.
    ///
    /// If the option value is empty, the map is left unchanged.
    pub fn insert(&mut self, name: OptionName, value: OptionValue)
        requires
            old(self).wf(),
        ensures
            final(self).wf(),
            final(self)@ == spec_insert(old(self)@, name@, value@),
    {
        if value.is_empty() {
            return ;
        }
        let ghost s_old = pairs_view(self.entries@);
        match self.find_index(&name) {
            Some(i) => {
                let _removed = self.entries.remove(i);
                proof {
                    assert(pairs_view(self.entries@) =~= s_old.remove(i as int));
                    lemma_assoc_remove(s_old, i as int);
                }
                let ghost s_mid = pairs_view(self.entries@);
                self.entries.push((name, value));
                proof {
                    assert(pairs_view(self.entries@) =~= s_mid.push((name@, value@)));
                    assert(!has_key(s_mid, name@)) by {
                        if has_key(s_mid, name@) {
                            assert(assoc_map(s_mid).dom().contains(name@));
                            assert(assoc_map(s_old).remove(s_old[i as int].0).dom().contains(
                                name@,
                            ));
                        }
                    }
                    lemma_assoc_push(s_mid, name@, value@);
                    assert(assoc_map(s_old).remove(name@).insert(name@, value@) =~= assoc_map(
                        s_old,
                    ).insert(name@, value@));
                }
            },
            None => {
                self.entries.push((name, value));
                proof {
                    assert(pairs_view(self.entries@) =~= s_old.push((name@, value@)));
                    assert(!has_key(s_old, name@)) by {
                        if has_key(s_old, name@) {
                            let j = choose|j: int|
                                0 <= j < s_old.len() && (#[trigger] s_old[j]).0 == name@;
                            assert(old(self).entries@[j].0@ == name@);
                        }
                    }
                    lemma_assoc_push(s_old, name@, value@);
                }
            },
        }
    }

    /// An owned copy of this option map, with the same contents.
    pub fn duplicate(&self) -> (r: OptionMap)
        ensures
            r@ == self@,
            self.wf() ==> r.wf(),
    {
        let mut entries: Vec<(OptionName, OptionValue)> = Vec::new();
        let mut i: usize = 0;
        while i < self.entries.len()
            invariant
                0 <= i <= self.entries@.len(),
                pairs_view(entries@) =~= pairs_view(self.entries@).take(i as int),
            decreases self.entries@.len() - i,
        {
            let ghost before = pairs_view(entries@);
            let name = dup_name(&self.entries[i].0);
            let value = dup_value(&self.entries[i].1);
            entries.push((name, value));
            proof {
                assert(pairs_view(entries@) =~= before.push(pairs_view(self.entries@)[i as int]));
                assert(pairs_view(entries@) =~= pairs_view(self.entries@).take(i + 1));
            }
            i = i + 1;
        }
        let r = OptionMap { entries };
        proof {
            assert(pairs_view(r.entries@) =~= pairs_view(self.entries@));
        }
        r
    }

    /// Whether this option map contains the given option name.
    pub fn contains(&self, name: &OptionName) -> (r: bool)
        ensures
            r == self@.dom().contains(name@),
    {
        match self.find_index(name) {
            Some(i) => {
                proof {
                    assert(pairs_view(self.entries@)[i as int].0 == name@);
                    assert(has_key(pairs_view(self.entries@), name@));
                }
                true
            },
            None => {
                proof {
                    assert(!has_key(pairs_view(self.entries@), name@)) by {
                        if has_key(pairs_view(self.entries@), name@) {
                            let j = choose|j: int|
                                0 <= j < pairs_view(self.entries@).len() && (#[trigger] pairs_view(
                                    self.entries@,
                                )[j]).0 == name@;
                            assert(self.entries@[j].0@ == name@);
                        }
                    }
                }
                false
            },
        }
    }

    /// Record the signing key under the reserved `Signed-By` name.
    ///
    /// Writing the reserved name twice is an invariant violation: the
    /// second write fails with the conflicting-key-locations error and
    /// leaves the map unchanged.
    pub fn insert_key(&mut self, key: SigningKey) -> (r: Result<(), Error>)
        requires
            old(self).wf(),
        ensures
            final(self).wf(),
            old(self)@.dom().contains(OptionNameV::Known(KnownOptionName::SignedBy)) ==> (r matches
                Err(e) && e is ConflictingKeyLocations && final(self)@ == old(self)@),
            !old(self)@.dom().contains(OptionNameV::Known(KnownOptionName::SignedBy)) ==> (r is Ok
                && final(self)@ == spec_insert(
                old(self)@,
                OptionNameV::Known(KnownOptionName::SignedBy),
                crate::key::signing_key_value(key@),
            )),
    {
        let signed_by = OptionName::Known(KnownOptionName::SignedBy);
        if self.contains(&signed_by) {
            Err(Error::ConflictingKeyLocations)
        } else {
            let value = match key {
                SigningKey::File { path } => OptionValue::from_string(path),
                SigningKey::Inline { value } => value,
            };
            self.insert(signed_by, value);
            Ok(())
        }
    }
}


/// Whether the pair `x` occurs in `s`.
pub open spec fn appears_in(x: (OptionNameV, OptionValueV), s: Seq<(OptionNameV, OptionValueV)>) -> bool {
    exists|i: int| 0 <= i < s.len() && (#[trigger] s[i]) == x
}

/// Whether `l` lists exactly the pairs of `m`, in canonical order:
/// known names in their fixed order first, then custom names sorted
/// lexicographically.
pub open spec fn is_canonical_listing(
    m: Map<OptionNameV, OptionValueV>,
    l: Seq<(OptionNameV, OptionValueV)>,
) -> bool {
    &&& (forall|i: int| 0 <= i < l.len() ==> m.contains_pair((#[trigger] l[i]).0, l[i].1))
    &&& (forall|k: OptionNameV| #[trigger] m.dom().contains(k) ==> has_key(l, k))
    &&& (forall|i: int, j: int|
        0 <= i < j < l.len() ==> name_lt((#[trigger] l[i]).0, (#[trigger] l[j]).0))
}

/// The canonical listing of a map.  It is uniquely determined whenever
/// one exists, as `lemma_canonical_listing_unique` shows.
pub open spec fn canonical_listing(m: Map<OptionNameV, OptionValueV>) -> Seq<
    (OptionNameV, OptionValueV),
> {
    choose|l: Seq<(OptionNameV, OptionValueV)>| is_canonical_listing(m, l)
}

/// Dropping the first pair of a canonical listing lists the map without
/// that key.
proof fn listing_tail(m: Map<OptionNameV, OptionValueV>, l: Seq<(OptionNameV, OptionValueV)>)
    requires
        is_canonical_listing(m, l),
        l.len() > 0,
    ensures
        is_canonical_listing(m.remove(l[0].0), l.drop_first()),
{
    let k0 = l[0].0;
    let m2 = m.remove(k0);
    let t = l.drop_first();
    assert forall|a: int| 0 <= a < t.len() implies m2.contains_pair(
        (#[trigger] t[a]).0,
        t[a].1,
    ) by {
        assert(t[a] == l[a + 1]);
        assert(name_lt(l[0].0, l[a + 1].0));
        lemma_name_lt_total(k0, t[a].0);
        assert(t[a].0 != k0);
    }
    assert forall|k: OptionNameV| #[trigger] m2.dom().contains(k) implies has_key(t, k) by {
        assert(m.dom().contains(k) && k != k0);
        let b = choose|b: int| 0 <= b < l.len() && (#[trigger] l[b]).0 == k;
        assert(b != 0);
        assert(t[b - 1].0 == k);
    }
    assert forall|a: int, b: int| 0 <= a < b < t.len() implies name_lt(
        (#[trigger] t[a]).0,
        (#[trigger] t[b]).0,
    ) by {
        assert(t[a] == l[a + 1] && t[b] == l[b + 1]);
        assert(name_lt(l[a + 1].0, l[b + 1].0));
    }
}

/// A map has at most one canonical listing.  Together with the contract
/// of `OptionMap::options`, this is the round-trip ordering law: the
/// listed options, and hence the serialized bytes, depend only on the
/// contents of the map, never on the order in which they were inserted.
pub proof fn lemma_canonical_listing_unique(
    m: Map<OptionNameV, OptionValueV>,
    l1: Seq<(OptionNameV, OptionValueV)>,
    l2: Seq<(OptionNameV, OptionValueV)>,
)
    requires
        is_canonical_listing(m, l1),
        is_canonical_listing(m, l2),
    ensures
        l1 == l2,
    decreases l1.len(),
{
    if l1.len() == 0 {
        if l2.len() > 0 {
            assert(m.dom().contains(l2[0].0));
            assert(has_key(l1, l2[0].0));
        }
        assert(l1 =~= l2);
    } else if l2.len() == 0 {
        assert(m.dom().contains(l1[0].0));
        assert(has_key(l2, l1[0].0));
    } else {
        let k1 = l1[0].0;
        let k2 = l2[0].0;
        assert(m.dom().contains(k1) && m.dom().contains(k2));
        assert(has_key(l1, k2) && has_key(l2, k1));
        let i = choose|i: int| 0 <= i < l1.len() && (#[trigger] l1[i]).0 == k2;
        let j = choose|j: int| 0 <= j < l2.len() && (#[trigger] l2[j]).0 == k1;
        if i > 0 && j > 0 {
            assert(name_lt(l1[0].0, l1[i].0));
            assert(name_lt(l2[0].0, l2[j].0));
            lemma_name_lt_total(k1, k2);
            assert(false);
        }
        assert(k1 == k2);
        assert(m.contains_pair(k1, l1[0].1) && m.contains_pair(k1, l2[0].1));
        assert(l1[0].1 == l2[0].1);
        listing_tail(m, l1);
        listing_tail(m, l2);
        lemma_canonical_listing_unique(m.remove(k1), l1.drop_first(), l2.drop_first());
        assert forall|a: int| 0 <= a < l1.len() implies l1[a] == l2[a] by {
            if a > 0 {
                assert(l1[a] == l1.drop_first()[a - 1] && l2[a] == l2.drop_first()[a - 1]);
            }
        }
        assert(l1 =~= l2);
    }
}

/// Sort pairs with distinct keys into the canonical name order.
#[verifier::rlimit(50)]
fn sort_pairs(input: Vec<(OptionName, OptionValue)>) -> (r: Vec<(OptionName, OptionValue)>)
    requires
        distinct_keys(pairs_view(input@)),
    ensures
        distinct_keys(pairs_view(r@)),
        forall|i: int, j: int|
            0 <= i < j < r@.len() ==> name_lt(
                (#[trigger] pairs_view(r@)[i]).0,
                (#[trigger] pairs_view(r@)[j]).0,
            ),
        forall|i: int|
            0 <= i < r@.len() ==> appears_in(#[trigger] pairs_view(r@)[i], pairs_view(input@)),
        forall|t: int|
            0 <= t < input@.len() ==> appears_in(#[trigger] pairs_view(input@)[t], pairs_view(r@)),
{
    let ghost orig = pairs_view(input@);
    let mut rest = input;
    let mut out: Vec<(OptionName, OptionValue)> = Vec::new();
    proof {
        assert forall|i: int| 0 <= i < pairs_view(rest@).len() implies appears_in(
            #[trigger] pairs_view(rest@)[i],
            orig,
        ) by {
            assert(orig[i] == pairs_view(rest@)[i]);
        }
        assert forall|t: int| 0 <= t < orig.len() implies appears_in(
            #[trigger] orig[t],
            pairs_view(rest@),
        ) by {
            assert(pairs_view(rest@)[t] == orig[t]);
        }
    }
    while rest.len() > 0
        invariant
            distinct_keys(pairs_view(rest@)),
            distinct_keys(pairs_view(out@)),
            forall|i: int, j: int|
                0 <= i < j < out@.len() ==> name_lt(
                    (#[trigger] pairs_view(out@)[i]).0,
                    (#[trigger] pairs_view(out@)[j]).0,
                ),
            forall|i: int, j: int|
                0 <= i < out@.len() && 0 <= j < rest@.len() ==> name_lt(
                    (#[trigger] pairs_view(out@)[i]).0,
                    (#[trigger] pairs_view(rest@)[j]).0,
                ),
            forall|i: int|
                0 <= i < out@.len() ==> appears_in(#[trigger] pairs_view(out@)[i], orig),
            forall|i: int|
                0 <= i < rest@.len() ==> appears_in(#[trigger] pairs_view(rest@)[i], orig),
            forall|t: int|
                0 <= t < orig.len() ==> appears_in(#[trigger] orig[t], pairs_view(out@))
                    || appears_in(orig[t], pairs_view(rest@)),
        decreases rest@.len(),
    {
        let mut min: usize = 0;
        let mut t: usize = 1;
        while t < rest.len()
            invariant
                0 <= min < t <= rest@.len(),
                distinct_keys(pairs_view(rest@)),
                forall|u: int|
                    0 <= u < t && u != min ==> name_lt(
                        pairs_view(rest@)[min as int].0,
                        (#[trigger] pairs_view(rest@)[u]).0,
                    ),
            decreases rest@.len() - t,
        {
            let ghost rv = pairs_view(rest@);
            if name_lt_exec(&rest[t].0, &rest[min].0) {
                proof {
                    assert forall|u: int| 0 <= u < t + 1 && u != t implies name_lt(
                        rv[t as int].0,
                        (#[trigger] rv[u]).0,
                    ) by {
                        if u != min {
                            lemma_name_lt_trans(rv[t as int].0, rv[min as int].0, rv[u].0);
                        }
                    }
                }
                min = t;
            } else {
                proof {
                    assert(rv[min as int].0 != rv[t as int].0);
                    lemma_name_lt_total(rv[min as int].0, rv[t as int].0);
                    assert(name_lt(rv[min as int].0, rv[t as int].0));
                }
            }
            t = t + 1;
        }
        let ghost rv_old = pairs_view(rest@);
        let ghost ov_old = pairs_view(out@);
        let p = rest.remove(min);
        out.push(p);
        proof {
            assert(pairs_view(rest@) =~= rv_old.remove(min as int));
            assert(pairs_view(out@) =~= ov_old.push(rv_old[min as int]));
            let rv = pairs_view(rest@);
            let ov = pairs_view(out@);
            assert forall|a: int, b: int| 0 <= a < b < rv.len() implies (#[trigger] rv[a]).0 != (
            #[trigger] rv[b]).0 by {
                let a0 = if a < min { a } else { a + 1 };
                let b0 = if b < min { b } else { b + 1 };
                assert(rv[a] == rv_old[a0] && rv[b] == rv_old[b0]);
            }
            assert forall|i: int, j: int| 0 <= i < j < ov.len() implies name_lt(
                (#[trigger] ov[i]).0,
                (#[trigger] ov[j]).0,
            ) by {
                if j == ov.len() - 1 {
                    assert(ov[i] == ov_old[i] && ov[j] == rv_old[min as int]);
                } else {
                    assert(ov[i] == ov_old[i] && ov[j] == ov_old[j]);
                }
            }
            assert forall|i: int, j: int| 0 <= i < j < ov.len() implies (#[trigger] ov[i]).0 != (
            #[trigger] ov[j]).0 by {
                assert(name_lt(ov[i].0, ov[j].0));
                lemma_name_lt_total(ov[i].0, ov[j].0);
                if ov[i].0 == ov[j].0 {
                    assert(name_lt(ov[j].0, ov[i].0));
                }
            }
            assert forall|i: int, j: int|
                0 <= i < ov.len() && 0 <= j < rv.len() implies name_lt(
                (#[trigger] ov[i]).0,
                (#[trigger] rv[j]).0,
            ) by {
                let j0 = if j < min { j } else { j + 1 };
                assert(rv[j] == rv_old[j0]);
                if i < ov_old.len() {
                    assert(ov[i] == ov_old[i]);
                } else {
                    assert(ov[i] == rv_old[min as int]);
                    assert(name_lt(rv_old[min as int].0, rv_old[j0].0));
                }
            }
            assert forall|i: int| 0 <= i < ov.len() implies appears_in(
                #[trigger] ov[i],
                orig,
            ) by {
                if i < ov_old.len() {
                    assert(ov[i] == ov_old[i]);
                } else {
                    assert(ov[i] == rv_old[min as int]);
                }
            }
            assert forall|i: int| 0 <= i < rv.len() implies appears_in(
                #[trigger] rv[i],
                orig,
            ) by {
                let j0 = if i < min { i } else { i + 1 };
                assert(rv[i] == rv_old[j0]);
            }
            assert forall|t0: int| 0 <= t0 < orig.len() implies appears_in(
                #[trigger] orig[t0],
                ov,
            ) || appears_in(orig[t0], rv) by {
                if appears_in(orig[t0], rv_old) {
                    let i = choose|i: int|
                        0 <= i < rv_old.len() && (#[trigger] rv_old[i]) == orig[t0];
                    if i == min {
                        assert(ov[ov.len() - 1] == orig[t0]);
                    } else if i < min {
                        assert(rv[i] == orig[t0]);
                    } else {
                        assert(rv[i - 1] == orig[t0]);
                    }
                } else {
                    assert(appears_in(orig[t0], ov_old));
                    let i = choose|i: int|
                        0 <= i < ov_old.len() && (#[trigger] ov_old[i]) == orig[t0];
                    assert(ov[i] == orig[t0]);
                }
            }
        }
    }
    out
}

impl OptionMap {
    /// The known-name options of this map, in canonical order.
    fn collect_knowns(&self) -> (r: Vec<(OptionName, OptionValue)>)
        requires
            self.wf(),
        ensures
            forall|i: int|
                0 <= i < r@.len() ==> self@.contains_pair(
                    (#[trigger] pairs_view(r@)[i]).0,
                    pairs_view(r@)[i].1,
                ),
            forall|i: int| 0 <= i < r@.len() ==> (#[trigger] pairs_view(r@)[i]).0 is Known,
            forall|i: int, j: int|
                0 <= i < j < r@.len() ==> name_lt(
                    (#[trigger] pairs_view(r@)[i]).0,
                    (#[trigger] pairs_view(r@)[j]).0,
                ),
            forall|k: OptionNameV|
                k is Known && #[trigger] self@.dom().contains(k) ==> has_key(pairs_view(r@), k),
    {
        let ghost m = self@;
        let ghost ps = pairs_view(self.entries@);
        let mut out: Vec<(OptionName, OptionValue)> = Vec::new();
        let mut ki: usize = 0;
        while ki < 19
            invariant
                0 <= ki <= 19,
                self.wf(),
                m == self@,
                ps == pairs_view(self.entries@),
                forall|i: int|
                    0 <= i < out@.len() ==> m.contains_pair(
                        (#[trigger] pairs_view(out@)[i]).0,
                        pairs_view(out@)[i].1,
                    ),
                forall|i: int|
                    0 <= i < out@.len() ==> ((#[trigger] pairs_view(out@)[i]).0 is Known
                        && known_pos(pairs_view(out@)[i].0->Known_0) < ki),
                forall|i: int, j: int|
                    0 <= i < j < out@.len() ==> name_lt(
                        (#[trigger] pairs_view(out@)[i]).0,
                        (#[trigger] pairs_view(out@)[j]).0,
                    ),
                forall|x: KnownOptionName|
                    known_pos(x) < ki && #[trigger] m.dom().contains(OptionNameV::Known(x))
                        ==> has_key(pairs_view(out@), OptionNameV::Known(x)),
            decreases 19 - ki,
        {
            let k = known_at(ki);
            let target = OptionName::Known(k);
            let ghost ov_old = pairs_view(out@);
            match self.find_index(&target) {
                Some(idx) => {
                    let name = dup_name(&self.entries[idx].0);
                    let value = dup_value(&self.entries[idx].1);
                    out.push((name, value));
                    proof {
                        assert(pairs_view(out@) =~= ov_old.push(
                            (OptionNameV::Known(k), ps[idx as int].1),
                        ));
                        lemma_value_at(ps, OptionNameV::Known(k), idx as int);
                    }
                },
                None => {
                    proof {
                        assert(!has_key(ps, OptionNameV::Known(k))) by {
                            if has_key(ps, OptionNameV::Known(k)) {
                                let j = choose|j: int|
                                    0 <= j < ps.len() && (#[trigger] ps[j]).0 == OptionNameV::Known(
                                        k,
                                    );
                                assert(self.entries@[j].0@ == target@);
                            }
                        }
                        assert(!m.dom().contains(OptionNameV::Known(k)));
                    }
                },
            }
            proof {
                let ov = pairs_view(out@);
                assert forall|x: KnownOptionName|
                    known_pos(x) < ki + 1 && #[trigger] m.dom().contains(
                        OptionNameV::Known(x),
                    ) implies has_key(ov, OptionNameV::Known(x)) by {
                    if known_pos(x) == ki as int {
                        lemma_known_order_pos();
                        assert(known_order()[known_pos(x)] == x && known_order()[known_pos(k)]
                            == k);
                        assert(ov[ov.len() - 1].0 == OptionNameV::Known(k));
                    } else {
                        assert(has_key(ov_old, OptionNameV::Known(x)));
                        let i = choose|i: int|
                            0 <= i < ov_old.len() && (#[trigger] ov_old[i]).0 == OptionNameV::Known(
                                x,
                            );
                        assert(ov[i].0 == OptionNameV::Known(x));
                    }
                }
            }
            ki = ki + 1;
        }
        proof {
            assert forall|k: OptionNameV|
                k is Known && #[trigger] m.dom().contains(k) implies has_key(
                pairs_view(out@),
                k,
            ) by {
                lemma_known_order_pos();
            }
        }
        out
    }

    /// The custom-name options of this map, in store order.
    #[verifier::rlimit(50)]
    fn collect_customs(&self) -> (r: Vec<(OptionName, OptionValue)>)
        requires
            self.wf(),
        ensures
            distinct_keys(pairs_view(r@)),
            forall|i: int|
                0 <= i < r@.len() ==> self@.contains_pair(
                    (#[trigger] pairs_view(r@)[i]).0,
                    pairs_view(r@)[i].1,
                ),
            forall|i: int| 0 <= i < r@.len() ==> (#[trigger] pairs_view(r@)[i]).0 is Custom,
            forall|k: OptionNameV|
                k is Custom && #[trigger] self@.dom().contains(k) ==> has_key(pairs_view(r@), k),
    {
        let ghost m = self@;
        let ghost ps = pairs_view(self.entries@);
        let mut customs: Vec<(OptionName, OptionValue)> = Vec::new();
        let mut ei: usize = 0;
        while ei < self.entries.len()
            invariant
                0 <= ei <= self.entries@.len(),
                self.wf(),
                m == self@,
                ps == pairs_view(self.entries@),
                distinct_keys(pairs_view(customs@)),
                forall|i: int|
                    0 <= i < customs@.len() ==> m.contains_pair(
                        (#[trigger] pairs_view(customs@)[i]).0,
                        pairs_view(customs@)[i].1,
                    ),
                forall|i: int|
                    0 <= i < customs@.len() ==> (#[trigger] pairs_view(customs@)[i]).0 is Custom,
                forall|i: int|
                    0 <= i < customs@.len() ==> exists|t: int|
                        0 <= t < ei && (#[trigger] pairs_view(customs@)[i]).0 == ps[t].0,
                forall|t: int|
                    0 <= t < ei && (#[trigger] ps[t]).0 is Custom ==> has_key(
                        pairs_view(customs@),
                        ps[t].0,
                    ),
            decreases self.entries@.len() - ei,
        {
            let ghost cv_old = pairs_view(customs@);
            if !self.entries[ei].0.is_known() {
                let name = dup_name(&self.entries[ei].0);
                let value = dup_value(&self.entries[ei].1);
                customs.push((name, value));
                proof {
                    assert(pairs_view(customs@) =~= cv_old.push(ps[ei as int]));
                    lemma_value_at(ps, ps[ei as int].0, ei as int);
                    let cv = pairs_view(customs@);
                    assert forall|i: int, j: int| 0 <= i < j < cv.len() implies (
                    #[trigger] cv[i]).0 != (#[trigger] cv[j]).0 by {
                        if j == cv.len() - 1 {
                            let t = choose|t: int|
                                0 <= t < ei && (#[trigger] cv_old[i]).0 == ps[t].0;
                            assert(ps[t].0 != ps[ei as int].0);
                        }
                    }
                    assert forall|t: int|
                        0 <= t < ei + 1 && (#[trigger] ps[t]).0 is Custom implies has_key(
                        cv,
                        ps[t].0,
                    ) by {
                        if t == ei as int {
                            assert(cv[cv.len() - 1].0 == ps[t].0);
                        } else {
                            assert(has_key(cv_old, ps[t].0));
                            let i = choose|i: int|
                                0 <= i < cv_old.len() && (#[trigger] cv_old[i]).0 == ps[t].0;
                            assert(cv[i].0 == ps[t].0);
                        }
                    }
                }
            } else {
                proof {
                    assert(ps[ei as int].0 is Known);
                }
            }
            ei = ei + 1;
        }
        proof {
            let cv = pairs_view(customs@);
            assert forall|k: OptionNameV|
                k is Custom && #[trigger] m.dom().contains(k) implies has_key(cv, k) by {
                assert(has_key(ps, k));
                let t = choose|t: int| 0 <= t < ps.len() && (#[trigger] ps[t]).0 == k;
                assert(ps[t].0 is Custom);
            }
        }
        customs
    }

    /// The options of this map in their canonical order: known options
    /// in their fixed order, then custom options sorted by their name.
    #[verifier::rlimit(50)]
    pub fn options(&self) -> (r: Vec<(OptionName, OptionValue)>)
        requires
            self.wf(),
        ensures
            is_canonical_listing(self@, pairs_view(r@)),
            pairs_view(r@) == canonical_listing(self@),
    {
        let ghost m = self@;
        let mut out = self.collect_knowns();
        let ghost ov = pairs_view(out@);
        let customs = self.collect_customs();
        let ghost cv = pairs_view(customs@);
        let sorted = sort_pairs(customs);
        let ghost sv = pairs_view(sorted@);
        let mut si: usize = 0;
        while si < sorted.len()
            invariant
                0 <= si <= sorted@.len(),
                sv == pairs_view(sorted@),
                pairs_view(out@) =~= ov + sv.take(si as int),
            decreases sorted@.len() - si,
        {
            let ghost before = pairs_view(out@);
            let name = dup_name(&sorted[si].0);
            let value = dup_value(&sorted[si].1);
            out.push((name, value));
            proof {
                assert(pairs_view(out@) =~= before.push(sv[si as int]));
                assert(ov + sv.take(si + 1) =~= (ov + sv.take(si as int)).push(sv[si as int]));
            }
            si = si + 1;
        }
        proof {
            assert(sv.take(sorted@.len() as int) =~= sv);
            let fv = pairs_view(out@);
            assert(fv =~= ov + sv);
            assert forall|i: int| 0 <= i < fv.len() implies m.contains_pair(
                (#[trigger] fv[i]).0,
                fv[i].1,
            ) by {
                if i < ov.len() {
                    assert(fv[i] == ov[i]);
                } else {
                    assert(fv[i] == sv[i - ov.len()]);
                    assert(appears_in(sv[i - ov.len()], cv));
                    let t = choose|t: int|
                        0 <= t < cv.len() && (#[trigger] cv[t]) == sv[i - ov.len()];
                    assert(m.contains_pair(cv[t].0, cv[t].1));
                }
            }
            assert forall|i: int|
                0 <= i < fv.len() implies ((#[trigger] fv[i]).0 is Known <==> i < ov.len()) by {
                if i < ov.len() {
                    assert(fv[i] == ov[i]);
                } else {
                    assert(fv[i] == sv[i - ov.len()]);
                    assert(appears_in(sv[i - ov.len()], cv));
                    let t = choose|t: int|
                        0 <= t < cv.len() && (#[trigger] cv[t]) == sv[i - ov.len()];
                    assert(cv[t].0 is Custom);
                }
            }
            assert forall|k: OptionNameV| #[trigger] m.dom().contains(k) implies has_key(
                fv,
                k,
            ) by {
                match k {
                    OptionNameV::Known(_) => {
                        assert(has_key(ov, k));
                        let i = choose|i: int| 0 <= i < ov.len() && (#[trigger] ov[i]).0 == k;
                        assert(fv[i].0 == k);
                    },
                    OptionNameV::Custom(_) => {
                        assert(has_key(cv, k));
                        let i = choose|i: int| 0 <= i < cv.len() && (#[trigger] cv[i]).0 == k;
                        assert(appears_in(cv[i], sv));
                        let j = choose|j: int| 0 <= j < sv.len() && (#[trigger] sv[j]) == cv[i];
                        assert(fv[ov.len() + j].0 == k);
                    },
                }
            }
            assert forall|i: int, j: int| 0 <= i < j < fv.len() implies name_lt(
                (#[trigger] fv[i]).0,
                (#[trigger] fv[j]).0,
            ) by {
                if i < ov.len() && j >= ov.len() {
                    assert(fv[i].0 is Known);
                    assert(!(fv[j].0 is Known));
                    match (fv[i].0, fv[j].0) {
                        (OptionNameV::Known(_), OptionNameV::Custom(_)) => {},
                        _ => {
                            assert(false);
                        },
                    }
                } else if i >= ov.len() {
                    assert(fv[i] == sv[i - ov.len()] && fv[j] == sv[j - ov.len()]);
                    assert(name_lt(sv[i - ov.len()].0, sv[j - ov.len()].0));
                } else {
                    assert(fv[i] == ov[i] && fv[j] == ov[j]);
                }
            }
            assert(is_canonical_listing(m, fv));
            assert(is_canonical_listing(m, canonical_listing(m)));
            lemma_canonical_listing_unique(m, fv, canonical_listing(m));
        }
        out
    }
}

} // verus!
