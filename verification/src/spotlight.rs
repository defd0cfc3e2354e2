//! The desktop client's spotlight: recognising arithmetic typed into the prompt
//! and reading it into an expression tree, and finding the applications that a
//! query names.
use crate::text::{
    ascii_fold, chars_vec, contains, eq_ignore_ascii_case, eq_ignore_ascii_case_spec, is_whitespace, is_ws, last_index,
    last_index_of, lemma_last_index_bounds, occurs_in, starts_with, strings_view, to_lowercase, to_string, trim,
    trim_spec, unicode_lowercase,
};
use vstd::prelude::*;

verus! {

/// The characters an arithmetic query may hold once whitespace is removed:
/// decimal digits, the four operators and the decimal point.
pub open spec fn is_math_char(c: char) -> bool {
    ('0' <= c && c <= '9') || c == '+' || c == '-' || c == '*' || c == '/' || c == '.'
}

/// `s` with every whitespace character removed.
pub open spec fn strip_ws(s: Seq<char>) -> Seq<char>
    decreases s.len(),
{
    if s.len() == 0 {
        Seq::empty()
    } else if is_ws(s.last()) {
        strip_ws(s.drop_last())
    } else {
        strip_ws(s.drop_last()).push(s.last())
    }
}

/// The arithmetic that `expr` may hold: its characters without whitespace, when
/// there is at least one and all are arithmetic characters.
pub open spec fn math_input(expr: Seq<char>) -> Option<Seq<char>> {
    let t = strip_ws(expr);
    if t.len() > 0 && forall|i: int| 0 <= i < t.len() ==> #[trigger] is_math_char(t[i]) {
        Some(t)
    } else {
        None
    }
}

/// The arithmetic that `expr` may hold, without its whitespace; none when it
/// is empty or holds another character.
pub fn clean_math_input(expr: &str) -> (r: Option<String>)
    ensures
        match r {
            Some(t) => math_input(expr@) == Some(t@),
            None => math_input(expr@) is None,
        },
{
    let chars = chars_vec(expr);
    let n = chars.len();
    let mut t = String::new();
    let mut ok = true;
    let mut i: usize = 0;
    assert(expr@.subrange(0, 0) =~= Seq::<char>::empty());
    while i < n
        invariant
            chars@ == expr@,
            n == expr@.len(),
            i <= n,
            t@ == strip_ws(expr@.subrange(0, i as int)),
            ok == (forall|j: int| 0 <= j < t@.len() ==> #[trigger] is_math_char(t@[j])),
        decreases n - i,
    {
        let c = chars[i];
        let ghost sub = expr@.subrange(0, i as int + 1);
        assert(sub.drop_last() =~= expr@.subrange(0, i as int));
        assert(sub.last() == c);
        if !is_whitespace(c) {
            let ghost before = t@;
            t.append(expr.substring_char(i, i + 1));
            assert(expr@.subrange(i as int, i as int + 1) =~= seq![c]);
            assert(t@ =~= before.push(c));
            let is_math = ('0' <= c && c <= '9') || c == '+' || c == '-' || c == '*' || c == '/' || c == '.';
            if !is_math {
                ok = false;
                assert(!is_math_char(t@[t@.len() - 1]));
            } else {
                assert forall|j: int| 0 <= j < t@.len() && ok implies #[trigger] is_math_char(t@[j]) by {
                    if j < before.len() {
                        assert(t@[j] == before[j]);
                    }
                }
                assert(!ok ==> !(forall|j: int| 0 <= j < t@.len() ==> #[trigger] is_math_char(t@[j]))) by {
                    if !ok {
                        let j = choose|j: int| 0 <= j < before.len() && !is_math_char(before[j]);
                        assert(t@[j] == before[j]);
                    }
                }
            }
        }
        i = i + 1;
    }
    assert(expr@.subrange(0, n as int) =~= expr@);
    if t.unicode_len() == 0 || !ok {
        None
    } else {
        Some(t)
    }
}

/// An arithmetic expression as the spotlight reads it.
pub enum MathTree {
    /// A number, not yet read: the digits and points between operators.
    Number(Seq<char>),
    /// An operator applied to what stands left of it (nothing when it comes
    /// first, which counts as zero) and right of it.
    Apply { op: char, left: Option<Box<MathTree>>, right: Box<MathTree> },
}

/// The operator at which an expression splits, with its position: the last
/// `+` if there is one, else the last `-`, else the last `*`, else the last `/`.
pub open spec fn split_point(s: Seq<char>) -> Option<(char, int)> {
    if last_index_of(s, '+') >= 0 {
        Some(('+', last_index_of(s, '+')))
    } else if last_index_of(s, '-') >= 0 {
        Some(('-', last_index_of(s, '-')))
    } else if last_index_of(s, '*') >= 0 {
        Some(('*', last_index_of(s, '*')))
    } else if last_index_of(s, '/') >= 0 {
        Some(('/', last_index_of(s, '/')))
    } else {
        None
    }
}

/// The operator that `split_point` picks stands at its position; without
/// one, the string holds no operator.
pub proof fn lemma_split_point(s: Seq<char>)
    ensures
        match split_point(s) {
            Some((op, p)) => 0 <= p < s.len() && s[p] == op,
            None => forall|i: int|
                0 <= i < s.len() ==> #[trigger] s[i] != '+' && s[i] != '-' && s[i] != '*' && s[i] != '/',
        },
{
    lemma_last_index_bounds(s, '+');
    lemma_last_index_bounds(s, '-');
    lemma_last_index_bounds(s, '*');
    lemma_last_index_bounds(s, '/');
}

/// The tree that the spotlight reads from an arithmetic string: split at the
/// operator that `split_point` picks, both sides read the same way; a string
/// without operators is a number. So `+` splits before `-`, `-` before `*`
/// and `*` before `/`, each at its last occurrence: operators of a kind group
/// to the left.
pub open spec fn math_tree(s: Seq<char>) -> MathTree
    decreases s.len(),
{
    match split_point(s) {
        None => MathTree::Number(s),
        Some((op, p)) => {
            proof {
                lemma_split_point(s);
            }
            MathTree::Apply {
                op,
                left: if p > 0 {
                    Some(Box::new(math_tree(s.subrange(0, p))))
                } else {
                    None
                },
                right: Box::new(math_tree(s.subrange(p + 1, s.len() as int))),
            }
        },
    }
}

/// Whether `c` occurs in `s`.
pub open spec fn has_char(s: Seq<char>, c: char) -> bool {
    exists|i: int| 0 <= i < s.len() && s[i] == c
}

/// The operator at the root of a tree, none for a number.
pub open spec fn root_op(t: MathTree) -> Option<char> {
    match t {
        MathTree::Number(_) => None,
        MathTree::Apply { op, .. } => Some(op),
    }
}

/// The text right of the root operator of a tree (all of it for a number).
pub open spec fn right_text(t: MathTree) -> Seq<char>
    decreases t,
{
    match t {
        MathTree::Number(s) => s,
        MathTree::Apply { right, .. } => render(*right),
    }
}

proof fn lemma_has_char_last(s: Seq<char>, c: char)
    ensures
        has_char(s, c) <==> last_index_of(s, c) >= 0,
        last_index_of(s, c) >= 0 ==> !has_char(s.subrange(last_index_of(s, c) + 1, s.len() as int), c),
{
    lemma_last_index_bounds(s, c);
    let p = last_index_of(s, c);
    if p >= 0 {
        assert(s[p] == c);
        let r = s.subrange(p + 1, s.len() as int);
        assert forall|i: int| 0 <= i < r.len() implies r[i] != c by {
            assert(r[i] == s[p + 1 + i]);
        }
    } else {
        assert forall|i: int| 0 <= i < s.len() implies s[i] != c by {}
    }
}

/// The calculator's precedence: when the text holds a `+`, the root is its
/// last `+` (nothing right of the root holds a `+`), so a run of `+` and `-`
/// is worked out left to right; a `-` is the root only when there is no `+`,
/// and again the last one; then `*`, then `/`; a text without operators is a
/// number. With `lemma_render_math_tree`, the root splits the text exactly
/// there.
pub proof fn lemma_math_precedence(s: Seq<char>)
    ensures
        has_char(s, '+') ==> root_op(math_tree(s)) == Some('+') && !has_char(right_text(math_tree(s)), '+'),
        !has_char(s, '+') && has_char(s, '-') ==> root_op(math_tree(s)) == Some('-') && !has_char(
            right_text(math_tree(s)),
            '-',
        ),
        !has_char(s, '+') && !has_char(s, '-') && has_char(s, '*') ==> root_op(math_tree(s)) == Some('*')
            && !has_char(right_text(math_tree(s)), '*'),
        !has_char(s, '+') && !has_char(s, '-') && !has_char(s, '*') && has_char(s, '/') ==> root_op(
            math_tree(s),
        ) == Some('/') && !has_char(right_text(math_tree(s)), '/'),
        !has_char(s, '+') && !has_char(s, '-') && !has_char(s, '*') && !has_char(s, '/') ==> math_tree(s)
            == MathTree::Number(s),
{
    lemma_has_char_last(s, '+');
    lemma_has_char_last(s, '-');
    lemma_has_char_last(s, '*');
    lemma_has_char_last(s, '/');
    lemma_split_point(s);
    match split_point(s) {
        None => {},
        Some((op, p)) => {
            lemma_render_math_tree(s.subrange(p + 1, s.len() as int));
        },
    }
}

/// An arithmetic expression read from the prompt; the numbers stay text, to be
/// read as floating-point numbers by the client.
#[derive(Debug)]
pub enum MathExpr {
    Number(String),
    Apply { op: char, left: Option<Box<MathExpr>>, right: Box<MathExpr> },
}

/// The view of an expression.
pub open spec fn math_view(e: MathExpr) -> MathTree
    decreases e,
{
    match e {
        MathExpr::Number(t) => MathTree::Number(t@),
        MathExpr::Apply { op, left, right } => MathTree::Apply {
            op,
            left: match left {
                Some(l) => Some(Box::new(math_view(*l))),
                None => None,
            },
            right: Box::new(math_view(*right)),
        },
    }
}

/// Reads the arithmetic string `s` into its expression tree.
pub fn parse_math(s: &str) -> (e: MathExpr)
    ensures
        math_view(e) == math_tree(s@),
    decreases s@.len(),
{
    proof {
        lemma_split_point(s@);
    }
    let found = match last_index(s, '+') {
        Some(p) => Some(('+', p)),
        None => match last_index(s, '-') {
            Some(p) => Some(('-', p)),
            None => match last_index(s, '*') {
                Some(p) => Some(('*', p)),
                None => match last_index(s, '/') {
                    Some(p) => Some(('/', p)),
                    None => None,
                },
            },
        },
    };
    match found {
        None => MathExpr::Number(to_string(s)),
        Some((op, p)) => {
            assert(split_point(s@) == Some((op, p as int)));
            let n = s.unicode_len();
            let left = if p > 0 {
                Some(Box::new(parse_math(s.substring_char(0, p))))
            } else {
                None
            };
            let right = Box::new(parse_math(s.substring_char(p + 1, n)));
            MathExpr::Apply { op, left, right }
        },
    }
}

/// The text of a tree read back: each operator between its sides, nothing for
/// a missing left side.
pub open spec fn render(t: MathTree) -> Seq<char>
    decreases t,
{
    match t {
        MathTree::Number(s) => s,
        MathTree::Apply { op, left, right } => (match left {
            Some(l) => render(*l),
            None => Seq::empty(),
        }) + seq![op] + render(*right),
    }
}

/// Reading an arithmetic string into a tree loses nothing: the tree read back
/// is the string.
pub proof fn lemma_render_math_tree(s: Seq<char>)
    ensures
        render(math_tree(s)) == s,
    decreases s.len(),
{
    lemma_split_point(s);
    match split_point(s) {
        None => {},
        Some((op, p)) => {
            let l = s.subrange(0, p);
            let r = s.subrange(p + 1, s.len() as int);
            lemma_render_math_tree(r);
            if p > 0 {
                lemma_render_math_tree(l);
            } else {
                assert(l =~= Seq::<char>::empty());
            }
            assert(s =~= l + seq![op] + r);
        },
    }
}

/// Whether no number of a tree holds an operator character.
pub open spec fn numbers_plain(t: MathTree) -> bool
    decreases t,
{
    match t {
        MathTree::Number(s) => forall|i: int|
            0 <= i < s.len() ==> #[trigger] s[i] != '+' && s[i] != '-' && s[i] != '*' && s[i] != '/',
        MathTree::Apply { op, left, right } => (match left {
            Some(l) => numbers_plain(*l),
            None => true,
        }) && numbers_plain(*right),
    }
}

/// Every number in a tree is free of operators: each operator of the input
/// became a node.
pub proof fn lemma_numbers_plain(s: Seq<char>)
    ensures
        numbers_plain(math_tree(s)),
    decreases s.len(),
{
    lemma_split_point(s);
    match split_point(s) {
        None => {},
        Some((op, p)) => {
            lemma_numbers_plain(s.subrange(p + 1, s.len() as int));
            if p > 0 {
                lemma_numbers_plain(s.subrange(0, p));
            }
        },
    }
}

/// An application that the spotlight can launch.
#[derive(Debug, Clone)]
pub struct AppInfo {
    pub name: String,
    pub executable: String,
    pub icon: String,
}

/// The view of an application: its name, its executable and its icon.
pub struct AppView {
    pub name: Seq<char>,
    pub executable: Seq<char>,
    pub icon: Seq<char>,
}

impl View for AppInfo {
    type V = AppView;

    open spec fn view(&self) -> AppView {
        AppView { name: self.name@, executable: self.executable@, icon: self.icon@ }
    }
}

/// The applications that the spotlight knows, in the order it tries them.
pub open spec fn catalog() -> Seq<AppView> {
    seq![
        AppView { name: "Firefox Web Browser"@, executable: "firefox"@, icon: "\u{1F310}"@ },
        AppView { name: "Alacritty Terminal"@, executable: "alacritty"@, icon: "\u{1F4BB}"@ },
        AppView { name: "XFCE File Manager"@, executable: "thunar"@, icon: "\u{1F4C1}"@ },
        AppView { name: "Calculator"@, executable: "galculator"@, icon: "\u{1F522}"@ },
        AppView { name: "Application Finder"@, executable: "xfce4-appfinder"@, icon: "\u{1F50D}"@ },
    ]
}

fn app(name: &str, executable: &str, icon: &str) -> (a: AppInfo)
    ensures
        a@ == (AppView { name: name@, executable: executable@, icon: icon@ }),
{
    AppInfo { name: to_string(name), executable: to_string(executable), icon: to_string(icon) }
}

/// The applications that the spotlight knows.
pub fn app_catalog() -> (apps: Vec<AppInfo>)
    ensures
        apps@.map_values(|a: AppInfo| a@) == catalog(),
{
    let mut apps: Vec<AppInfo> = Vec::new();
    apps.push(app("Firefox Web Browser", "firefox", "\u{1F310}"));
    apps.push(app("Alacritty Terminal", "alacritty", "\u{1F4BB}"));
    apps.push(app("XFCE File Manager", "thunar", "\u{1F4C1}"));
    apps.push(app("Calculator", "galculator", "\u{1F522}"));
    apps.push(app("Application Finder", "xfce4-appfinder", "\u{1F50D}"));
    assert(apps@.map_values(|a: AppInfo| a@) =~= catalog());
    apps
}

/// Whether typing `query` (lower-cased: `lowered_query`) and pressing Enter
/// launches an application with this executable and this lower-cased name: the
/// query is the executable up to ASCII case, or a prefix of the lower-cased
/// name once lower-cased itself.
pub open spec fn launches_lowered(
    executable: Seq<char>,
    query: Seq<char>,
    lowered_query: Seq<char>,
    lowered_name: Seq<char>,
) -> bool {
    eq_ignore_ascii_case_spec(executable, query) || lowered_query.is_prefix_of(lowered_name)
}

/// What launching means, independently of how it is computed: the query is
/// the executable up to ASCII case, or the lower-cased query is a prefix of
/// the lower-cased name, character for character from the start (a query that
/// only occurs later in the name does not launch).
pub proof fn lemma_launches_means_prefix(
    executable: Seq<char>,
    query: Seq<char>,
    lowered_query: Seq<char>,
    lowered_name: Seq<char>,
)
    ensures
        launches_lowered(executable, query, lowered_query, lowered_name) <==> ((executable.len() == query.len()
            && forall|i: int| 0 <= i < query.len() ==> #[trigger] ascii_fold(executable[i]) == ascii_fold(query[i]))
            || (lowered_query.len() <= lowered_name.len() && forall|i: int|
            0 <= i < lowered_query.len() ==> #[trigger] lowered_name[i] == lowered_query[i])),
{
    if lowered_query.len() <= lowered_name.len() && forall|i: int|
        0 <= i < lowered_query.len() ==> #[trigger] lowered_name[i] == lowered_query[i] {
        assert(lowered_name.subrange(0, lowered_query.len() as int) =~= lowered_query);
    }
}

/// Whether typing `query` and pressing Enter launches the application `a`.
pub open spec fn launches(a: AppView, query: Seq<char>) -> bool {
    launches_lowered(a.executable, query, unicode_lowercase(query), unicode_lowercase(a.name))
}

/// The first application in `apps` that `query` launches, given the query
/// lower-cased and the applications' names lower-cased, position for position.
pub fn launch_target_lowered(
    apps: &Vec<AppInfo>,
    query: &str,
    lowered_query: &str,
    lowered_names: &Vec<String>,
) -> (r: Option<usize>)
    requires
        lowered_names@.len() == apps@.len(),
    ensures
        match r {
            Some(i) => i < apps@.len() && launches_lowered(
                apps@[i as int].executable@,
                query@,
                lowered_query@,
                lowered_names@[i as int]@,
            ) && forall|j: int|
                0 <= j < i ==> !launches_lowered(
                    #[trigger] apps@[j].executable@,
                    query@,
                    lowered_query@,
                    lowered_names@[j]@,
                ),
            None => forall|j: int|
                0 <= j < apps@.len() ==> !launches_lowered(
                    #[trigger] apps@[j].executable@,
                    query@,
                    lowered_query@,
                    lowered_names@[j]@,
                ),
        },
{
    let mut i: usize = 0;
    while i < apps.len()
        invariant
            i <= apps@.len(),
            lowered_names@.len() == apps@.len(),
            forall|j: int|
                0 <= j < i ==> !launches_lowered(
                    #[trigger] apps@[j].executable@,
                    query@,
                    lowered_query@,
                    lowered_names@[j]@,
                ),
        decreases apps@.len() - i,
    {
        if eq_ignore_ascii_case(apps[i].executable.as_str(), query) {
            return Some(i);
        }
        if starts_with(lowered_names[i].as_str(), lowered_query) {
            return Some(i);
        }
        i = i + 1;
    }
    None
}

/// The lower-cased names of the applications (their executables, with `names`
/// false), in order.
fn lowered_fields(apps: &Vec<AppInfo>, names: bool) -> (r: Vec<String>)
    ensures
        r@.len() == apps@.len(),
        forall|j: int|
            0 <= j < apps@.len() ==> (#[trigger] r@[j])@ == unicode_lowercase(
                if names {
                    apps@[j].name@
                } else {
                    apps@[j].executable@
                },
            ),
{
    let mut r: Vec<String> = Vec::new();
    let mut i: usize = 0;
    while i < apps.len()
        invariant
            i <= apps@.len(),
            r@.len() == i,
            forall|j: int|
                0 <= j < i ==> (#[trigger] r@[j])@ == unicode_lowercase(
                    if names {
                        apps@[j].name@
                    } else {
                        apps@[j].executable@
                    },
                ),
        decreases apps@.len() - i,
    {
        let field = if names {
            apps[i].name.as_str()
        } else {
            apps[i].executable.as_str()
        };
        r.push(to_lowercase(field));
        i = i + 1;
    }
    r
}

/// The first application in `apps` that `query` launches, if any.
pub fn launch_target(apps: &Vec<AppInfo>, query: &str) -> (r: Option<usize>)
    ensures
        match r {
            Some(i) => i < apps@.len() && launches(apps@[i as int]@, query@) && forall|j: int|
                0 <= j < i ==> !launches(#[trigger] apps@[j]@, query@),
            None => forall|j: int| 0 <= j < apps@.len() ==> !launches(#[trigger] apps@[j]@, query@),
        },
{
    let lowered_query = to_lowercase(query);
    let lowered_names = lowered_fields(apps, true);
    let r = launch_target_lowered(apps, query, lowered_query.as_str(), &lowered_names);
    proof {
        assert forall|j: int| 0 <= j < apps@.len() implies launches(#[trigger] apps@[j]@, query@)
            == launches_lowered(apps@[j].executable@, query@, lowered_query@, lowered_names@[j]@) by {
            assert(lowered_names@[j]@ == unicode_lowercase(apps@[j].name@));
        }
    }
    r
}

/// The positions of the applications suggested for the lower-cased query `q`,
/// given their lower-cased executables and names, position for position: those
/// where `q` occurs in one or the other, in order.
pub open spec fn suggestions_among(q: Seq<char>, exes: Seq<Seq<char>>, names: Seq<Seq<char>>) -> Seq<int>
    decreases names.len(),
{
    if names.len() == 0 || exes.len() == 0 {
        Seq::empty()
    } else {
        let rest = suggestions_among(q, exes.drop_last(), names.drop_last());
        if occurs_in(q, exes.last()) || occurs_in(q, names.last()) {
            rest.push(names.len() - 1)
        } else {
            rest
        }
    }
}

/// Whether `q` appears in `t` as a run of characters, character for
/// character, starting somewhere in `t`.
pub open spec fn appears_in(q: Seq<char>, t: Seq<char>) -> bool {
    exists|k: int| #[trigger] appears_at(q, t, k)
}

/// Whether `q` appears in `t` starting at position `k`.
pub open spec fn appears_at(q: Seq<char>, t: Seq<char>, k: int) -> bool {
    0 <= k && k + q.len() <= t.len() && forall|j: int| 0 <= j < q.len() ==> t[k + j] == #[trigger] q[j]
}

proof fn lemma_appears_in(q: Seq<char>, t: Seq<char>)
    ensures
        appears_in(q, t) <==> occurs_in(q, t),
{
    if appears_in(q, t) {
        let k = choose|k: int| #[trigger] appears_at(q, t, k);
        assert(t.subrange(k, k + q.len()) =~= q);
    }
    if occurs_in(q, t) {
        let k = choose|k: int| 0 <= k && k + q.len() <= t.len() && #[trigger] t.subrange(k, k + q.len()) == q;
        assert forall|j: int| 0 <= j < q.len() implies t[k + j] == #[trigger] q[j] by {
            assert(t.subrange(k, k + q.len())[j] == t[k + j]);
        }
        assert(appears_at(q, t, k));
    }
}

/// The suggestions are exactly the applications in whose lower-cased
/// executable or name the lower-cased query appears, each once and in order.
pub proof fn lemma_suggestions_are_matches(q: Seq<char>, exes: Seq<Seq<char>>, names: Seq<Seq<char>>)
    requires
        exes.len() == names.len(),
    ensures
        forall|i: int|
            suggestions_among(q, exes, names).contains(i) <==> 0 <= i < names.len() && (appears_in(q, exes[i])
                || appears_in(q, names[i])),
        forall|a: int, b: int|
            0 <= a < b < suggestions_among(q, exes, names).len() ==> #[trigger] suggestions_among(q, exes, names)[a]
                < #[trigger] suggestions_among(q, exes, names)[b],
        forall|a: int|
            0 <= a < suggestions_among(q, exes, names).len() ==> 0 <= #[trigger] suggestions_among(q, exes, names)[a]
                < names.len(),
    decreases names.len(),
{
    if names.len() > 0 {
        let n = names.len() - 1;
        lemma_suggestions_are_matches(q, exes.drop_last(), names.drop_last());
        lemma_appears_in(q, exes.last());
        lemma_appears_in(q, names.last());
        let rest = suggestions_among(q, exes.drop_last(), names.drop_last());
        let all = suggestions_among(q, exes, names);
        assert forall|i: int| all.contains(i) <==> 0 <= i < names.len() && (appears_in(q, exes[i]) || appears_in(
            q,
            names[i],
        )) by {
            if 0 <= i < n {
                assert(exes.drop_last()[i] == exes[i]);
                assert(names.drop_last()[i] == names[i]);
            }
            if all.contains(i) {
                let a = choose|a: int| 0 <= a < all.len() && all[a] == i;
                if a < rest.len() {
                    assert(all[a] == rest[a]);
                    assert(rest.contains(i));
                }
            }
            if rest.contains(i) {
                let a = choose|a: int| 0 <= a < rest.len() && rest[a] == i;
                assert(all[a] == rest[a]);
            }
            if i == n && (appears_in(q, exes[i]) || appears_in(q, names[i])) {
                assert(all[all.len() - 1] == n);
            }
        }
        assert forall|a: int, b: int| 0 <= a < b < all.len() implies #[trigger] all[a] < #[trigger] all[b] by {
            if b < rest.len() {
                assert(all[a] == rest[a]);
                assert(all[b] == rest[b]);
            } else {
                assert(all[a] == rest[a]);
            }
        }
        assert forall|a: int| 0 <= a < all.len() implies 0 <= #[trigger] all[a] < names.len() by {
            if a < rest.len() {
                assert(all[a] == rest[a]);
            }
        }
    }
}

/// The positions of the applications suggested for the lower-cased query
/// `lowered_query`, given their lower-cased executables and names.
pub fn suggested_apps_lowered(lowered_query: &str, lowered_exes: &Vec<String>, lowered_names: &Vec<String>) -> (r:
    Vec<usize>)
    requires
        lowered_exes@.len() == lowered_names@.len(),
    ensures
        r@.map_values(|i: usize| i as int) == suggestions_among(
            lowered_query@,
            strings_view(lowered_exes@),
            strings_view(lowered_names@),
        ),
{
    let ghost exes = strings_view(lowered_exes@);
    let ghost names = strings_view(lowered_names@);
    let mut r: Vec<usize> = Vec::new();
    let mut i: usize = 0;
    assert(exes.subrange(0, 0) =~= Seq::<Seq<char>>::empty());
    while i < lowered_names.len()
        invariant
            i <= lowered_names@.len(),
            lowered_exes@.len() == lowered_names@.len(),
            exes == strings_view(lowered_exes@),
            names == strings_view(lowered_names@),
            r@.map_values(|k: usize| k as int) == suggestions_among(
                lowered_query@,
                exes.subrange(0, i as int),
                names.subrange(0, i as int),
            ),
        decreases lowered_names@.len() - i,
    {
        let ghost se = exes.subrange(0, i as int + 1);
        let ghost sn = names.subrange(0, i as int + 1);
        assert(se.drop_last() =~= exes.subrange(0, i as int));
        assert(sn.drop_last() =~= names.subrange(0, i as int));
        assert(se.last() == lowered_exes@[i as int]@);
        assert(sn.last() == lowered_names@[i as int]@);
        if contains(lowered_exes[i].as_str(), lowered_query) || contains(lowered_names[i].as_str(), lowered_query) {
            let ghost before = r@;
            r.push(i);
            assert(r@.map_values(|k: usize| k as int) =~= before.map_values(|k: usize| k as int).push(i as int));
        }
        i = i + 1;
    }
    assert(exes.subrange(0, lowered_names@.len() as int) =~= exes);
    assert(names.subrange(0, lowered_names@.len() as int) =~= names);
    r
}

/// The applications suggested while `prompt` is typed: none for a blank
/// prompt, else those whose lower-cased executable or name holds the trimmed,
/// lower-cased prompt.
pub fn suggested_apps(apps: &Vec<AppInfo>, prompt: &str) -> (r: Vec<usize>)
    ensures
        trim_spec(prompt@).len() == 0 ==> r@.len() == 0,
        trim_spec(prompt@).len() > 0 ==> r@.map_values(|i: usize| i as int) == suggestions_among(
            unicode_lowercase(trim_spec(prompt@)),
            apps@.map_values(|a: AppInfo| unicode_lowercase(a.executable@)),
            apps@.map_values(|a: AppInfo| unicode_lowercase(a.name@)),
        ),
{
    let trimmed = trim(prompt);
    if trimmed.unicode_len() == 0 {
        return Vec::new();
    }
    let q = to_lowercase(trimmed.as_str());
    let exes = lowered_fields(apps, false);
    let names = lowered_fields(apps, true);
    let r = suggested_apps_lowered(q.as_str(), &exes, &names);
    assert(strings_view(exes@) =~= apps@.map_values(|a: AppInfo| unicode_lowercase(a.executable@)));
    assert(strings_view(names@) =~= apps@.map_values(|a: AppInfo| unicode_lowercase(a.name@)));
    r
}

} // verus!
