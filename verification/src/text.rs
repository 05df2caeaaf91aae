use vstd::prelude::*;

verus! {

/// The code of `c` with the ASCII upper-case letters turned lower-case.
pub open spec fn ascii_lower_code(c: char) -> u32 {
    let v = c as u32;
    if 65 <= v <= 90 {
        (v + 32) as u32
    } else {
        v
    }
}

/// `a` and `b` are equal when ASCII letter case is ignored.
pub open spec fn ascii_ci_eq(a: Seq<char>, b: Seq<char>) -> bool {
    &&& a.len() == b.len()
    &&& forall|i: int| 0 <= i < a.len() ==> #[trigger] ascii_lower_code(a[i]) == ascii_lower_code(b[i])
}

/// The code of `c`, ASCII upper-case letters lowered.
fn lower_code(c: char) -> (code: u32)
    ensures
        code == ascii_lower_code(c),
{
    let v = c as u32;
    if 65 <= v && v <= 90 {
        v + 32
    } else {
        v
    }
}

/// Compares two strings, ignoring the case of ASCII letters.
pub fn eq_ignore_ascii_case(a: &str, b: &str) -> (res: bool)
    ensures
        res == ascii_ci_eq(a@, b@),
{
    let n = a.unicode_len();
    let m = b.unicode_len();
    if n != m {
        return false;
    }
    let mut i: usize = 0;
    while i < n
        invariant
            i <= n,
            n == a@.len(),
            m == b@.len(),
            n == m,
            forall|j: int| 0 <= j < i ==> #[trigger] ascii_lower_code(a@[j]) == ascii_lower_code(b@[j]),
        decreases n - i,
    {
        if lower_code(a.get_char(i)) != lower_code(b.get_char(i)) {
            return false;
        }
        i = i + 1;
    }
    true
}

/// Whether `a` and `b` are equal under Unicode case folding (what
/// `unicase::eq` computes).
pub uninterp spec fn unicase_equal(a: Seq<char>, b: Seq<char>) -> bool;

/// Calls `unicase::eq`. The result is `unicase_equal` of the two strings;
/// when both are ASCII, the crate compares them ignoring ASCII case only.
/// The Unicode case folding of other strings is not stated.
#[verifier::external_body]
pub(crate) fn unicase_eq(a: &str, b: &str) -> (res: bool)
    ensures
        res == unicase_equal(a@, b@),
        (vstd::utf8::is_ascii_chars(a@) && vstd::utf8::is_ascii_chars(b@)) ==> (res == ascii_ci_eq(a@, b@)),
{
    unicase::eq(a, b)
}

/// Whether the two characters `##` start at `at`.
pub open spec fn marker_at(text: Seq<char>, at: int) -> bool {
    0 <= at && at + 1 < text.len() && text[at] == '#' && text[at + 1] == '#'
}

/// Whether `at` is the first `##` of `text`.
pub open spec fn is_first_marker(text: Seq<char>, at: int) -> bool {
    marker_at(text, at) && forall|j: int| 0 <= j < at ==> !#[trigger] marker_at(text, j)
}

/// The position of the first `##` of `text`, if any.
pub open spec fn first_marker(text: Seq<char>) -> Option<int> {
    if exists|i: int| #[trigger] is_first_marker(text, i) {
        Some(choose|i: int| #[trigger] is_first_marker(text, i))
    } else {
        None
    }
}

/// Whether `at` is the last `##` that ends by `end`.
pub open spec fn is_last_marker_before(text: Seq<char>, end: int, at: int) -> bool {
    &&& marker_at(text, at)
    &&& at + 2 <= end
    &&& forall|j: int| at < j && j + 2 <= end ==> !#[trigger] marker_at(text, j)
}

/// The position of the last `##` of `text` that ends by `end`, if any.
pub open spec fn last_marker_before(text: Seq<char>, end: int) -> Option<int> {
    if exists|i: int| #[trigger] is_last_marker_before(text, end, i) {
        Some(choose|i: int| #[trigger] is_last_marker_before(text, end, i))
    } else {
        None
    }
}

/// Whether `c` is `#`.
fn is_hash(c: char) -> (res: bool)
    ensures
        res == (c == '#'),
{
    c as u32 == 35
}

/// Finds the first `##` of `text`.
pub fn find_first_marker(text: &str) -> (res: Option<usize>)
    ensures
        res matches Some(i) ==> first_marker(text@) == Some(i as int),
        res is None ==> first_marker(text@) is None,
        res is None ==> forall|j: int| !#[trigger] marker_at(text@, j),
{
    let n = text.unicode_len();
    let mut i: usize = 0;
    while n > 0 && i < n - 1
        invariant
            n == text@.len(),
            forall|j: int| 0 <= j < i ==> !#[trigger] marker_at(text@, j),
        decreases n - i,
    {
        if is_hash(text.get_char(i)) && is_hash(text.get_char(i + 1)) {
            proof {
                assert(is_first_marker(text@, i as int));
                let k = choose|k: int| #[trigger] is_first_marker(text@, k);
                if k < i {
                    assert(!marker_at(text@, k));
                } else if k > i {
                    assert(!marker_at(text@, i as int));
                }
            }
            return Some(i);
        }
        i = i + 1;
    }
    proof {
        assert forall|j: int| !#[trigger] marker_at(text@, j) by {
            if 0 <= j < i {
            }
        }
        assert forall|j: int| !#[trigger] is_first_marker(text@, j) by {
            assert(!marker_at(text@, j));
        }
    }
    None
}

/// Finds the last `##` of `text` that ends by `end`.
pub fn find_last_marker_before(text: &str, end: usize) -> (res: Option<usize>)
    requires
        end <= text@.len(),
    ensures
        res matches Some(i) ==> last_marker_before(text@, end as int) == Some(i as int),
        res is None ==> last_marker_before(text@, end as int) is None,
{
    let mut k: usize = end;
    while k >= 2
        invariant
            k <= end,
            end <= text@.len(),
            forall|j: int| k - 2 < j && j + 2 <= end ==> !#[trigger] marker_at(text@, j),
        decreases k,
    {
        let i = k - 2;
        if is_hash(text.get_char(i)) && is_hash(text.get_char(i + 1)) {
            proof {
                assert(is_last_marker_before(text@, end as int, i as int));
                let c = choose|c: int| #[trigger] is_last_marker_before(text@, end as int, c);
                if c < i {
                    assert(!marker_at(text@, i as int));
                } else if c > i {
                    assert(!marker_at(text@, c));
                }
            }
            return Some(i);
        }
        k = k - 1;
    }
    proof {
        assert forall|j: int| !#[trigger] is_last_marker_before(text@, end as int, j) by {
            if is_last_marker_before(text@, end as int, j) {
                assert(marker_at(text@, j));
            }
        }
    }
    None
}

/// A tree node's identifier, split from its label.
pub struct TreeNode<'a> {
    pub ident: &'a str,
    pub label: Option<&'a str>,
}

/// The identifier that `TreeNode::new` takes from `text`: what follows its
/// last `##`, or all of it.
pub open spec fn tree_node_ident(text: Seq<char>) -> Seq<char> {
    match last_marker_before(text, text.len() as int) {
        Some(i) => text.subrange(i + 2, text.len() as int),
        None => text,
    }
}

/// The label that `TreeNode::new` takes from `text`: what stands between
/// its last two `##` (or between the start and its only `##`), if any.
pub open spec fn tree_node_label(text: Seq<char>) -> Option<Seq<char>> {
    match last_marker_before(text, text.len() as int) {
        Some(i) => match last_marker_before(text, i) {
            Some(j) => Some(text.subrange(j + 2, i)),
            None => Some(text.subrange(0, i)),
        },
        None => None,
    }
}

impl<'a> TreeNode<'a> {
    /// Splits `ident` from the right on `##`: the last piece is the
    /// identifier, the one before it the label.
    pub fn new(ident: &'a str) -> (node: TreeNode<'a>)
        ensures
            node.ident@ == tree_node_ident(ident@),
            node.label is Some <==> tree_node_label(ident@) is Some,
            node.label matches Some(l) ==> l@ == tree_node_label(ident@)->0,
    {
        let n = ident.unicode_len();
        match find_last_marker_before(ident, n) {
            Some(i) => {
                let id = ident.substring_char(i + 2, n);
                let label = match find_last_marker_before(ident, i) {
                    Some(j) => ident.substring_char(j + 2, i),
                    None => ident.substring_char(0, i),
                };
                TreeNode { ident: id, label: Some(label) }
            },
            None => TreeNode { ident, label: None },
        }
    }
}

/// The label shown for a tree node: `ident` up to its first `##`.
pub open spec fn tree_node_shown_label(text: Seq<char>) -> Seq<char> {
    match first_marker(text) {
        Some(i) => text.subrange(0, i),
        None => text,
    }
}

/// The label of a tree node pushed under `ident`: the text before its
/// first `##`, or all of it.
pub fn push_tree_node(ident: &str) -> (label: &str)
    ensures
        label@ == tree_node_shown_label(ident@),
{
    match find_first_marker(ident) {
        Some(i) => ident.substring_char(0, i),
        None => ident,
    }
}

/// The colour themes, one per game.
#[derive(Clone, Copy, Debug, PartialEq, Eq, Structural)]
pub enum Theme {
    MassEffect1,
    MassEffect2,
    MassEffect3,
}

impl Theme {
    /// The theme's CSS class name.
    pub open spec fn spec_name(self) -> Seq<char> {
        match self {
            Theme::MassEffect1 => "mass-effect-1"@,
            Theme::MassEffect2 => "mass-effect-2"@,
            Theme::MassEffect3 => "mass-effect-3"@,
        }
    }

    /// The theme's CSS class name.
    pub fn deref(&self) -> (name: &'static str)
        ensures
            name@ == self.spec_name(),
    {
        match self {
            Theme::MassEffect1 => "mass-effect-1",
            Theme::MassEffect2 => "mass-effect-2",
            Theme::MassEffect3 => "mass-effect-3",
        }
    }
}

/// `text` with every leading repetition of `prefix` taken off (what
/// `str::trim_start_matches` does with a text pattern).
pub open spec fn trim_start_all(text: Seq<char>, prefix: Seq<char>) -> Seq<char>
    decreases text.len(),
{
    if prefix.len() > 0 && prefix.len() <= text.len() && text.take(prefix.len() as int) == prefix {
        trim_start_all(text.skip(prefix.len() as int), prefix)
    } else {
        text
    }
}

/// Whether `prefix` stands in `text` at position `at`.
fn starts_at(text: &str, prefix: &str, at: usize) -> (res: bool)
    requires
        at <= text@.len(),
    ensures
        res == (prefix@.len() <= text@.len() - at && text@.skip(at as int).take(prefix@.len() as int) == prefix@),
{
    let n = text.unicode_len();
    let m = prefix.unicode_len();
    if m > n - at {
        return false;
    }
    let mut k: usize = 0;
    while k < m
        invariant
            k <= m,
            n == text@.len(),
            m == prefix@.len(),
            at + m <= n,
            forall|j: int| 0 <= j < k ==> text@[at + j] == prefix@[j],
        decreases m - k,
    {
        if text.get_char(at + k) != prefix.get_char(k) {
            proof {
                assert(text@.skip(at as int).take(m as int)[k as int] == text@[at + k]);
            }
            return false;
        }
        k = k + 1;
    }
    proof {
        assert(text@.skip(at as int).take(m as int) =~= prefix@);
    }
    true
}

/// Takes every leading repetition of `prefix` off `text`.
pub fn trim_start_matches<'a>(text: &'a str, prefix: &str) -> (res: &'a str)
    ensures
        res@ == trim_start_all(text@, prefix@),
{
    let n = text.unicode_len();
    let m = prefix.unicode_len();
    if m == 0 {
        return text;
    }
    let mut i: usize = 0;
    proof {
        assert(text@.skip(0) =~= text@);
    }
    while i < n && starts_at(text, prefix, i)
        invariant
            i <= n,
            n == text@.len(),
            m == prefix@.len(),
            m > 0,
            trim_start_all(text@.skip(i as int), prefix@) == trim_start_all(text@, prefix@),
        decreases n - i,
    {
        proof {
            assert(text@.skip(i as int).skip(m as int) =~= text@.skip(i + m));
        }
        i = i + m;
    }
    proof {
        if i >= n {
            assert(text@.skip(i as int) =~= Seq::<char>::empty());
        }
    }
    let res = text.substring_char(i, n);
    proof {
        assert(res@ =~= text@.skip(i as int));
    }
    res
}

/// The label shown for a property of the raw data of a Mass Effect 1
/// save: the given label, or the property's name without its type prefix
/// (`m_a`, `m_b`, `m_e`, `m_f`, `m_n`, `m_o`, `m_s`, then `m_`, each
/// taken off as often as it leads).
pub open spec fn property_label_of(label: Option<Seq<char>>, name: Seq<char>) -> Seq<char> {
    match label {
        Some(l) => l,
        None => trim_start_all(
            trim_start_all(
                trim_start_all(
                    trim_start_all(
                        trim_start_all(
                            trim_start_all(trim_start_all(trim_start_all(name, "m_a"@), "m_b"@), "m_e"@),
                            "m_f"@,
                        ),
                        "m_n"@,
                    ),
                    "m_o"@,
                ),
                "m_s"@,
            ),
            "m_"@,
        ),
    }
}

/// The label shown for a property (see `property_label_of`).
pub fn property_label<'a>(label: Option<&'a str>, name: &'a str) -> (shown: &'a str)
    ensures
        shown@ == property_label_of(
            match label {
                Some(l) => Some(l@),
                None => None,
            },
            name@,
        ),
{
    match label {
        Some(l) => l,
        None => {
            let t = trim_start_matches(name, "m_a");
            let t = trim_start_matches(t, "m_b");
            let t = trim_start_matches(t, "m_e");
            let t = trim_start_matches(t, "m_f");
            let t = trim_start_matches(t, "m_n");
            let t = trim_start_matches(t, "m_o");
            let t = trim_start_matches(t, "m_s");
            trim_start_matches(t, "m_")
        },
    }
}

} // verus!
