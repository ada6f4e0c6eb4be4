use vstd::prelude::*;
use vstd::string::*;

use crate::errors::SdkError;
use crate::labels::Label;

verus! {

/// A node of the label filter tree: equality constraints on the label's
/// columns plus two optional groups of child nodes, joined by AND and by OR.
pub struct GetLabelsWhere {
    pub name: Option<String>,
    pub description: Option<String>,
    pub color: Option<String>,
    pub _and: Option<Vec<GetLabelsWhere>>,
    pub _or: Option<Vec<GetLabelsWhere>>,
}

/// A compiled predicate: SQL text with `$k` placeholders and the values bound
/// to them, in placeholder order.
pub struct Fragment {
    pub text: String,
    pub params: Vec<String>,
}

/// Most bound parameters a single PostgreSQL statement can carry.
pub const MAX_PARAMS: usize = 65535;

/// Text and parameters of a fragment, as mathematical values.
pub type FragModel = (Seq<char>, Seq<Seq<char>>);

impl Fragment {
    pub open spec fn model(&self) -> FragModel {
        (self.text@, self.params@.map_values(|p: String| p@))
    }
}

pub open spec fn empty_frag() -> FragModel {
    (Seq::empty(), Seq::empty())
}

pub open spec fn digit_chars() -> Seq<char> {
    seq!['0', '1', '2', '3', '4', '5', '6', '7', '8', '9']
}

/// Decimal digits of `k`, most significant first.
pub open spec fn decimal(k: nat) -> Seq<char>
    decreases k,
{
    if k < 10 {
        seq![digit_chars()[k as int]]
    } else {
        decimal(k / 10) + seq![digit_chars()[(k % 10) as int]]
    }
}

pub open spec fn and_children(n: GetLabelsWhere) -> Seq<GetLabelsWhere> {
    match n._and {
        Some(v) => v@,
        None => Seq::empty(),
    }
}

pub open spec fn or_children(n: GetLabelsWhere) -> Seq<GetLabelsWhere> {
    match n._or {
        Some(v) => v@,
        None => Seq::empty(),
    }
}

pub open spec fn opt_field(col: Seq<char>, v: Option<String>) -> Seq<(Seq<char>, Seq<char>)> {
    match v {
        Some(s) => seq![(col, s@)],
        None => Seq::empty(),
    }
}

/// The node's present equality constraints, as (column, literal) pairs in
/// column order.
pub open spec fn field_seq(n: GetLabelsWhere) -> Seq<(Seq<char>, Seq<char>)> {
    opt_field("name"@, n.name) + opt_field("description"@, n.description) + opt_field(
        "color"@,
        n.color,
    )
}

/// Appends `f` to `acc` with `sep` between them; an empty text contributes
/// nothing to the text.
pub open spec fn join_frag(acc: FragModel, f: FragModel, sep: Seq<char>) -> FragModel {
    if f.0.len() == 0 {
        (acc.0, acc.1 + f.1)
    } else if acc.0.len() == 0 {
        (f.0, acc.1 + f.1)
    } else {
        (acc.0 + sep + f.0, acc.1 + f.1)
    }
}

/// `col = $k`, the clause for one constraint bound at placeholder `k`.
pub open spec fn eq_clause(col: Seq<char>, k: nat) -> Seq<char> {
    col + " = $"@ + decimal(k)
}

/// The constraints of `fs`, joined by AND, numbered from `base`.
pub open spec fn fold_fields(fs: Seq<(Seq<char>, Seq<char>)>, base: nat) -> FragModel
    decreases fs.len(),
{
    if fs.len() == 0 {
        empty_frag()
    } else {
        let acc = fold_fields(fs.subrange(0, fs.len() - 1), base);
        let last = fs[fs.len() - 1];
        join_frag(acc, (eq_clause(last.0, base + acc.1.len()), seq![last.1]), " AND "@)
    }
}

pub open spec fn parens(t: Seq<char>) -> Seq<char> {
    if t.len() == 0 {
        t
    } else {
        "("@ + t + ")"@
    }
}

/// Combines the AND group and the OR group of a node.
pub open spec fn group(a: FragModel, o: FragModel) -> FragModel {
    let ag = parens(a.0);
    let og = parens(o.0);
    if ag.len() > 0 && og.len() > 0 {
        (ag + " OR "@ + og, a.1 + o.1)
    } else {
        (ag + og, a.1 + o.1)
    }
}

/// The child groups of a node are structurally smaller than the node.
pub proof fn lemma_children_decrease(n: GetLabelsWhere)
    ensures
        n._and is Some ==> decreases_to!(n => and_children(n)),
        n._or is Some ==> decreases_to!(n => or_children(n)),
{
    broadcast use vstd::std_specs::vec::axiom_vec_decreases_to_view;

    if let Some(v) = n._and {
        assert(decreases_to!(n => n._and));
        assert(decreases_to!(n._and => v));
        assert(decreases_to!(v => v@));
    }
    if let Some(v) = n._or {
        assert(decreases_to!(n => n._or));
        assert(decreases_to!(n._or => v));
        assert(decreases_to!(v => v@));
    }
}

/// Compiles node `n` with its first placeholder numbered `base`.
pub open spec fn compile_spec(n: GetLabelsWhere, base: nat) -> FragModel
    decreases n, 1nat,
{
    proof {
        lemma_children_decrease(n);
    }
    let f = fold_fields(field_seq(n), base);
    let a = if n._and is Some {
        fold_children(and_children(n), f, base, " AND "@)
    } else {
        f
    };
    let o = if n._or is Some {
        fold_children(or_children(n), empty_frag(), base + a.1.len(), " OR "@)
    } else {
        empty_frag()
    };
    group(a, o)
}

/// Folds the compiled children `cs` onto `acc0` with `sep`; each child's
/// placeholders continue from those already gathered.
pub open spec fn fold_children(
    cs: Seq<GetLabelsWhere>,
    acc0: FragModel,
    base: nat,
    sep: Seq<char>,
) -> FragModel
    decreases cs, 0nat,
{
    if cs.len() == 0 {
        acc0
    } else {
        let acc = fold_children(cs.subrange(0, cs.len() - 1), acc0, base, sep);
        join_frag(acc, compile_spec(cs[cs.len() - 1], base + acc.1.len()), sep)
    }
}

/// Number of placeholders that compiling `n` produces.
pub open spec fn param_count(n: GetLabelsWhere) -> nat
    decreases n, 1nat,
{
    proof {
        lemma_children_decrease(n);
    }
    field_seq(n).len() + (if n._and is Some {
        sum_counts(and_children(n))
    } else {
        0
    }) + (if n._or is Some {
        sum_counts(or_children(n))
    } else {
        0
    })
}

pub open spec fn sum_counts(cs: Seq<GetLabelsWhere>) -> nat
    decreases cs, 0nat,
{
    if cs.len() == 0 {
        0
    } else {
        sum_counts(cs.subrange(0, cs.len() - 1)) + param_count(cs[cs.len() - 1])
    }
}

/// A prefix of a group never needs more placeholders than the whole group.
pub proof fn lemma_sum_counts_prefix(cs: Seq<GetLabelsWhere>, j: int)
    requires
        0 <= j <= cs.len(),
    ensures
        sum_counts(cs.subrange(0, j)) <= sum_counts(cs),
    decreases cs.len(),
{
    if j < cs.len() {
        let init = cs.subrange(0, cs.len() - 1);
        assert(init.subrange(0, j) =~= cs.subrange(0, j));
        lemma_sum_counts_prefix(init, j);
    } else {
        assert(cs.subrange(0, j) =~= cs);
    }
}

proof fn lemma_prefix_step<T>(s: Seq<T>, i: int)
    requires
        0 <= i < s.len(),
    ensures
        s.subrange(0, i + 1).subrange(0, i) =~= s.subrange(0, i),
        s.subrange(0, i + 1)[i] == s[i],
        s.subrange(0, i + 1).len() == i + 1,
{
}

/// A child of either group is structurally smaller than its node.
pub proof fn lemma_child_decreases(n: GetLabelsWhere, cs: Seq<GetLabelsWhere>, i: int)
    requires
        (n._and is Some && cs == and_children(n)) || (n._or is Some && cs == or_children(n)),
        0 <= i < cs.len(),
    ensures
        decreases_to!(n => cs[i]),
{
    lemma_children_decrease(n);
    assert(decreases_to!(cs => cs[i]));
}

/// Appends the decimal digits of `k` to `out`.
pub(crate) fn push_decimal(out: &mut String, k: usize)
    ensures
        final(out)@ == old(out)@ + decimal(k as nat),
    decreases k,
{
    if k >= 10 {
        push_decimal(out, k / 10);
    }
    let d: usize = k % 10;
    let digits: &str = "0123456789";
    proof {
        reveal_strlit("0123456789");
        assert(digits@ =~= digit_chars());
    }
    let one = digits.substring_char(d, d + 1);
    assert(one@ =~= seq![digit_chars()[d as int]]);
    out.append(one);
    proof {
        if k < 10 {
            assert(d == k);
        }
    }
}

/// Joins `f` onto `acc` with `sep`, dropping an empty text.
fn join_into(acc: &mut Fragment, f: Fragment, sep: &str)
    ensures
        final(acc).model() == join_frag(old(acc).model(), f.model(), sep@),
        final(acc).params@.len() == old(acc).params@.len() + f.params@.len(),
{
    let ghost fm = f.model();
    let ghost am = acc.model();
    let Fragment { text, params } = f;
    let mut params = params;
    if text.as_str().is_empty() {
    } else if acc.text.as_str().is_empty() {
        acc.text = text;
    } else {
        acc.text.append(sep);
        acc.text.append(text.as_str());
    }
    let ghost old_params = acc.params@;
    acc.params.append(&mut params);
    proof {
        assert(acc.params@.map_values(|p: String| p@) =~= am.1 + fm.1);
    }
}

/// Adds the constraint `col = $idx` bound to `val`, joined by AND.
fn add_clause(acc: &mut Fragment, col: &str, val: &String, idx: usize)
    ensures
        final(acc).model() == join_frag(
            old(acc).model(),
            (eq_clause(col@, idx as nat), seq![val@]),
            " AND "@,
        ),
        final(acc).params@.len() == old(acc).params@.len() + 1,
{
    let mut text = String::new();
    text.append(col);
    text.append(" = $");
    push_decimal(&mut text, idx);
    let mut params: Vec<String> = Vec::new();
    params.push(val.clone());
    let f = Fragment { text, params };
    assert(f.model().1 =~= seq![val@]);
    join_into(acc, f, " AND ");
}

/// Wraps a non-empty text in parentheses.
fn parenthesize(t: String) -> (r: String)
    ensures
        r@ == parens(t@),
{
    if t.as_str().is_empty() {
        t
    } else {
        let mut r = String::new();
        r.append("(");
        r.append(t.as_str());
        r.append(")");
        r
    }
}

/// Combines an AND group and an OR group as `(A) OR (O)`.
fn group_exec(a: Fragment, o: Fragment) -> (r: Fragment)
    ensures
        r.model() == group(a.model(), o.model()),
        r.params@.len() == a.params@.len() + o.params@.len(),
{
    let ghost am = a.model();
    let ghost om = o.model();
    let Fragment { text: at, params: ap } = a;
    let Fragment { text: ot, params: op } = o;
    let ag = parenthesize(at);
    let og = parenthesize(ot);
    let mut text = ag;
    if !text.as_str().is_empty() && !og.as_str().is_empty() {
        text.append(" OR ");
    }
    text.append(og.as_str());
    let mut params = ap;
    let mut op = op;
    params.append(&mut op);
    let r = Fragment { text, params };
    proof {
        assert(r.model().1 =~= am.1 + om.1);
        assert(r.model().0 =~= group(am, om).0);
    }
    r
}

/// Placeholders needed by the groups `cs`, or `None` where they exceed `limit`.
fn count_group(n: &GetLabelsWhere, v: &Vec<GetLabelsWhere>, limit: usize) -> (r: Option<usize>)
    requires
        (n._and == Some(*v)) || (n._or == Some(*v)),
    ensures
        match r {
            Some(c) => c == sum_counts(v@) && c <= limit,
            None => sum_counts(v@) > limit,
        },
    decreases *n, 0nat,
{
    let mut acc: usize = 0;
    let mut i: usize = 0;
    while i < v.len()
        invariant
            (n._and == Some(*v)) || (n._or == Some(*v)),
            0 <= i <= v.len(),
            acc == sum_counts(v@.subrange(0, i as int)),
            acc <= limit,
        decreases v.len() - i,
    {
        proof {
            lemma_child_decreases(*n, v@, i as int);
            lemma_prefix_step(v@, i as int);
        }
        match v[i].count_params(limit - acc) {
            Some(c) => {
                acc = acc + c;
            },
            None => {
                proof {
                    lemma_sum_counts_prefix(v@, i + 1);
                }
                return None;
            },
        }
        i = i + 1;
    }
    assert(v@.subrange(0, v.len() as int) =~= v@);
    Some(acc)
}

impl GetLabelsWhere {
    /// Placeholders that compiling this node needs, or `None` where they
    /// exceed `limit`.
    pub fn count_params(&self, limit: usize) -> (r: Option<usize>)
        ensures
            match r {
                Some(c) => c == param_count(*self) && c <= limit,
                None => param_count(*self) > limit,
            },
        decreases *self, 1nat,
    {
        let mut fields: usize = 0;
        if self.name.is_some() {
            fields = fields + 1;
        }
        if self.description.is_some() {
            fields = fields + 1;
        }
        if self.color.is_some() {
            fields = fields + 1;
        }
        assert(fields == field_seq(*self).len());
        if fields > limit {
            return None;
        }
        let mut total: usize = fields;
        match &self._and {
            Some(v) => {
                match count_group(self, v, limit - total) {
                    Some(c) => {
                        total = total + c;
                    },
                    None => {
                        return None;
                    },
                }
            },
            None => {},
        }
        match &self._or {
            Some(v) => {
                match count_group(self, v, limit - total) {
                    Some(c) => {
                        total = total + c;
                    },
                    None => {
                        return None;
                    },
                }
            },
            None => {},
        }
        Some(total)
    }

    /// The node's own constraints joined by AND, numbered from `base`.
    fn fields_fragment(&self, base: usize) -> (r: Fragment)
        requires
            base + field_seq(*self).len() <= usize::MAX,
        ensures
            r.model() == fold_fields(field_seq(*self), base as nat),
            r.params@.len() == field_seq(*self).len(),
    {
        let mut acc = Fragment { text: String::new(), params: Vec::new() };
        let ghost mut fs: Seq<(Seq<char>, Seq<char>)> = Seq::empty();
        proof {
            reveal_strlit("name");
            reveal_strlit("description");
            reveal_strlit("color");
            assert(acc.model().0 =~= empty_frag().0);
            assert(acc.model().1 =~= empty_frag().1);
        }
        if let Some(v) = &self.name {
            let ghost prev = fs;
            let ghost am0 = acc.model();
            let idx = base + acc.params.len();
            add_clause(&mut acc, "name", v, idx);
            proof {
                fs = fs.push(("name"@, v@));
                assert(fs.subrange(0, fs.len() - 1) =~= prev);
                assert(am0.1.len() == idx - base);
                assert(fold_fields(fs, base as nat) == join_frag(
                    fold_fields(prev, base as nat),
                    (eq_clause("name"@, idx as nat), seq![v@]),
                    " AND "@,
                ));
                assert(acc.params@.len() == fs.len());
                assert(acc.model() == fold_fields(fs, base as nat));
            }
        }
        if let Some(v) = &self.description {
            let ghost prev = fs;
            let ghost am0 = acc.model();
            let idx = base + acc.params.len();
            add_clause(&mut acc, "description", v, idx);
            proof {
                fs = fs.push(("description"@, v@));
                assert(fs.subrange(0, fs.len() - 1) =~= prev);
                assert(am0.1.len() == idx - base);
                assert(fold_fields(fs, base as nat) == join_frag(
                    fold_fields(prev, base as nat),
                    (eq_clause("description"@, idx as nat), seq![v@]),
                    " AND "@,
                ));
                assert(acc.params@.len() == fs.len());
                assert(acc.model() == fold_fields(fs, base as nat));
            }
        }
        if let Some(v) = &self.color {
            let ghost prev = fs;
            let ghost am0 = acc.model();
            let idx = base + acc.params.len();
            add_clause(&mut acc, "color", v, idx);
            proof {
                fs = fs.push(("color"@, v@));
                assert(fs.subrange(0, fs.len() - 1) =~= prev);
                assert(am0.1.len() == idx - base);
                assert(fold_fields(fs, base as nat) == join_frag(
                    fold_fields(prev, base as nat),
                    (eq_clause("color"@, idx as nat), seq![v@]),
                    " AND "@,
                ));
                assert(acc.params@.len() == fs.len());
                assert(acc.model() == fold_fields(fs, base as nat));
            }
        }
        assert(acc.model() == fold_fields(fs, base as nat));
        assert(fs =~= field_seq(*self));
        acc
    }

    /// Compiles this node with its first placeholder numbered `base`.
    pub fn compile_at(&self, base: usize) -> (r: Fragment)
        requires
            base + param_count(*self) <= usize::MAX,
        ensures
            r.model() == compile_spec(*self, base as nat),
            r.params@.len() == param_count(*self),
        decreases *self, 1nat,
    {
        let mut acc = self.fields_fragment(base);
        proof {
            assert(field_seq(*self).len() <= param_count(*self));
        }
        let ghost fm = acc.model();
        assert(fm == fold_fields(field_seq(*self), base as nat));
        if let Some(v) = &self._and {
            let mut i: usize = 0;
            while i < v.len()
                invariant
                    self._and == Some(*v),
                    0 <= i <= v.len(),
                    base + param_count(*self) <= usize::MAX,
                    fm.1.len() == field_seq(*self).len(),
                    acc.model() == fold_children(v@.subrange(0, i as int), fm, base as nat, " AND "@),
                    acc.params@.len() == field_seq(*self).len() + sum_counts(v@.subrange(0, i as int)),
                decreases v.len() - i,
            {
                proof {
                    lemma_child_decreases(*self, v@, i as int);
                    lemma_prefix_step(v@, i as int);
                    lemma_sum_counts_prefix(v@, i + 1);
                }
                let c = v[i].compile_at(base + acc.params.len());
                join_into(&mut acc, c, " AND ");
                i = i + 1;
            }
            assert(v@.subrange(0, v.len() as int) =~= v@);
        }
        let ghost am = acc.model();
        assert(am == (if self._and is Some {
            fold_children(and_children(*self), fm, base as nat, " AND "@)
        } else {
            fm
        }));
        let obase = base + acc.params.len();
        let mut o = Fragment { text: String::new(), params: Vec::new() };
        proof {
            assert(o.model().0 =~= empty_frag().0);
            assert(o.model().1 =~= empty_frag().1);
        }
        if let Some(v) = &self._or {
            let mut i: usize = 0;
            while i < v.len()
                invariant
                    self._or == Some(*v),
                    0 <= i <= v.len(),
                    base + param_count(*self) <= usize::MAX,
                    obase == base + am.1.len(),
                    am.1.len() + (if self._or is Some { sum_counts(or_children(*self)) } else { 0 })
                        <= param_count(*self),
                    o.model() == fold_children(v@.subrange(0, i as int), empty_frag(), obase as nat, " OR "@),
                    o.params@.len() == sum_counts(v@.subrange(0, i as int)),
                decreases v.len() - i,
            {
                proof {
                    lemma_child_decreases(*self, v@, i as int);
                    lemma_prefix_step(v@, i as int);
                    lemma_sum_counts_prefix(v@, i + 1);
                }
                let c = v[i].compile_at(obase + o.params.len());
                join_into(&mut o, c, " OR ");
                i = i + 1;
            }
            assert(v@.subrange(0, v.len() as int) =~= v@);
        }
        assert(o.model() == (if self._or is Some {
            fold_children(or_children(*self), empty_frag(), obase as nat, " OR "@)
        } else {
            empty_frag()
        }));
        assert(acc.params@.len() + o.params@.len() == param_count(*self));
        let r = group_exec(acc, o);
        assert(r.model() == compile_spec(*self, base as nat));
        r
    }

    /// Compiles the filter tree into SQL text with `$1`, `$2`, ... placeholders
    /// and the literals bound to them; a tree that needs more than
    /// `MAX_PARAMS` placeholders is rejected.
    pub fn compile_sql(&self) -> (r: Result<Fragment, SdkError>)
        ensures
            param_count(*self) <= MAX_PARAMS ==> r is Ok && r->Ok_0.model() == compile_spec(*self, 1),
            param_count(*self) > MAX_PARAMS ==> r is Err && r->Err_0 is Validation,
    {
        match self.count_params(MAX_PARAMS) {
            Some(_) => Ok(self.compile_at(1)),
            None => Err(SdkError::Validation(String::from_str("filter needs too many parameters"))),
        }
    }
}

/// A node with no constraint and no child.
pub open spec fn is_blank(n: GetLabelsWhere) -> bool {
    n.name is None && n.description is None && n.color is None && and_children(n).len() == 0
        && or_children(n).len() == 0
}

/// Two trees with the same constraints present and the same child structure,
/// whatever literals they hold.
pub open spec fn same_shape(n1: GetLabelsWhere, n2: GetLabelsWhere) -> bool
    decreases n1, 1nat,
{
    proof {
        lemma_children_decrease(n1);
    }
    &&& (n1.name is Some) == (n2.name is Some)
    &&& (n1.description is Some) == (n2.description is Some)
    &&& (n1.color is Some) == (n2.color is Some)
    &&& (n1._and is Some) == (n2._and is Some)
    &&& (n1._or is Some) == (n2._or is Some)
    &&& (n1._and is Some ==> same_shape_seq(and_children(n1), and_children(n2)))
    &&& (n1._or is Some ==> same_shape_seq(or_children(n1), or_children(n2)))
}

pub open spec fn same_shape_seq(s1: Seq<GetLabelsWhere>, s2: Seq<GetLabelsWhere>) -> bool
    decreases s1, 0nat,
{
    s1.len() == s2.len() && (s1.len() > 0 ==> same_shape_seq(
        s1.subrange(0, s1.len() - 1),
        s2.subrange(0, s2.len() - 1),
    ) && same_shape(s1[s1.len() - 1], s2[s2.len() - 1]))
}

/// A tree without constraints or children compiles to no text and no
/// parameters, so it imposes no condition.
pub proof fn law_blank_compiles_empty(n: GetLabelsWhere, base: nat)
    requires
        is_blank(n),
    ensures
        compile_spec(n, base) == empty_frag(),
{
    assert(field_seq(n) =~= Seq::empty());
    assert(compile_spec(n, base).0 =~= empty_frag().0);
    assert(compile_spec(n, base).1 =~= empty_frag().1);
}

/// A tree whose only content is the AND group `[a, b]` compiles to the
/// conjunction of the two compiled children, in one pair of parentheses; a
/// child that compiles to nothing is left out.
pub proof fn law_and_pair(n: GetLabelsWhere, a: GetLabelsWhere, b: GetLabelsWhere, base: nat)
    requires
        n.name is None,
        n.description is None,
        n.color is None,
        n._and is Some,
        and_children(n) == seq![a, b],
        or_children(n).len() == 0,
    ensures
        ({
            let fa = compile_spec(a, base);
            let fb = compile_spec(b, base + fa.1.len());
            let j = join_frag(fa, fb, " AND "@);
            compile_spec(n, base) == (parens(j.0), j.1)
        }),
        ({
            let fa = compile_spec(a, base);
            let fb = compile_spec(b, base + fa.1.len());
            fa.0.len() > 0 && fb.0.len() > 0 ==> compile_spec(n, base).0 == "("@ + fa.0
                + " AND "@ + fb.0 + ")"@
        }),
{
    let cs = and_children(n);
    assert(field_seq(n) =~= Seq::empty());
    assert(cs.subrange(0, 1) =~= seq![a]);
    assert(cs.subrange(0, 1).subrange(0, 0) =~= Seq::<GetLabelsWhere>::empty());
    let f = fold_fields(field_seq(n), base);
    assert(f == empty_frag());
    let fa = compile_spec(a, base);
    let s1 = cs.subrange(0, 1);
    assert(s1[0] == a);
    assert(fold_children(s1.subrange(0, 0), f, base, " AND "@) == f);
    assert(f.1 + fa.1 =~= fa.1);
    let first = fold_children(s1, f, base, " AND "@);
    assert(first.0 == fa.0);
    assert(first.1 =~= fa.1);
    let o = if n._or is Some {
        fold_children(or_children(n), empty_frag(), base + first.1.len(), " OR "@)
    } else {
        empty_frag()
    };
    assert(o == empty_frag());
    let fb = compile_spec(b, base + fa.1.len());
    let j = join_frag(fa, fb, " AND "@);
    assert(compile_spec(n, base).0 =~= parens(j.0));
    assert(compile_spec(n, base).1 =~= j.1);
}

/// With a non-empty AND group and a non-empty OR group, a node compiles to
/// `(AND group) OR (OR group)`: the OR group is never distributed over the
/// AND group.
pub proof fn law_and_or_groups(n: GetLabelsWhere, base: nat)
    requires
        n._and is Some || n.name is Some || n.description is Some || n.color is Some,
        n._or is Some,
    ensures
        ({
            let f = fold_fields(field_seq(n), base);
            let a = if n._and is Some {
                fold_children(and_children(n), f, base, " AND "@)
            } else {
                f
            };
            let o = fold_children(or_children(n), empty_frag(), base + a.1.len(), " OR "@);
            a.0.len() > 0 && o.0.len() > 0 ==> compile_spec(n, base) == (
                "("@ + a.0 + ")"@ + " OR "@ + "("@ + o.0 + ")"@,
                a.1 + o.1,
            )
        }),
{
}

proof fn lemma_fields_shape(
    fs1: Seq<(Seq<char>, Seq<char>)>,
    fs2: Seq<(Seq<char>, Seq<char>)>,
    base: nat,
)
    requires
        fs1.len() == fs2.len(),
        forall|i: int| 0 <= i < fs1.len() ==> #[trigger] fs1[i].0 == fs2[i].0,
    ensures
        fold_fields(fs1, base).0 == fold_fields(fs2, base).0,
        fold_fields(fs1, base).1.len() == fold_fields(fs2, base).1.len(),
    decreases fs1.len(),
{
    if fs1.len() > 0 {
        let p1 = fs1.subrange(0, fs1.len() - 1);
        let p2 = fs2.subrange(0, fs2.len() - 1);
        assert forall|i: int| 0 <= i < p1.len() implies #[trigger] p1[i].0 == p2[i].0 by {
            assert(fs1[i].0 == fs2[i].0);
        }
        lemma_fields_shape(p1, p2, base);
        assert(fs1[fs1.len() - 1].0 == fs2[fs2.len() - 1].0);
    }
}

proof fn lemma_children_shape(
    s1: Seq<GetLabelsWhere>,
    s2: Seq<GetLabelsWhere>,
    acc1: FragModel,
    acc2: FragModel,
    base: nat,
    sep: Seq<char>,
)
    requires
        same_shape_seq(s1, s2),
        acc1.0 == acc2.0,
        acc1.1.len() == acc2.1.len(),
    ensures
        fold_children(s1, acc1, base, sep).0 == fold_children(s2, acc2, base, sep).0,
        fold_children(s1, acc1, base, sep).1.len() == fold_children(s2, acc2, base, sep).1.len(),
    decreases s1, 0nat,
{
    if s1.len() > 0 {
        let p1 = s1.subrange(0, s1.len() - 1);
        let p2 = s2.subrange(0, s2.len() - 1);
        lemma_children_shape(p1, p2, acc1, acc2, base, sep);
        let a1 = fold_children(p1, acc1, base, sep);
        assert(decreases_to!(s1 => s1[s1.len() - 1]));
        lemma_compile_shape(s1[s1.len() - 1], s2[s2.len() - 1], base + a1.1.len());
    }
}

proof fn lemma_compile_shape(n1: GetLabelsWhere, n2: GetLabelsWhere, base: nat)
    requires
        same_shape(n1, n2),
    ensures
        compile_spec(n1, base).0 == compile_spec(n2, base).0,
        compile_spec(n1, base).1.len() == compile_spec(n2, base).1.len(),
    decreases n1, 1nat,
{
    lemma_children_decrease(n1);
    let fs1 = field_seq(n1);
    let fs2 = field_seq(n2);
    assert forall|i: int| 0 <= i < fs1.len() implies #[trigger] fs1[i].0 == fs2[i].0 by {
        reveal_strlit("name");
        reveal_strlit("description");
        reveal_strlit("color");
    }
    lemma_fields_shape(fs1, fs2, base);
    let f1 = fold_fields(fs1, base);
    let f2 = fold_fields(fs2, base);
    if n1._and is Some {
        lemma_children_shape(and_children(n1), and_children(n2), f1, f2, base, " AND "@);
    }
    let a1 = if n1._and is Some {
        fold_children(and_children(n1), f1, base, " AND "@)
    } else {
        f1
    };
    if n1._or is Some {
        lemma_children_shape(
            or_children(n1),
            or_children(n2),
            empty_frag(),
            empty_frag(),
            base + a1.1.len(),
            " OR "@,
        );
    }
}

/// The text of a compiled filter depends only on the tree's shape: literal
/// values, whatever quotes or terminators they hold, reach the statement only
/// as bound parameters and cannot change its structure.
pub proof fn law_literals_do_not_shape_text(n1: GetLabelsWhere, n2: GetLabelsWhere, base: nat)
    requires
        same_shape(n1, n2),
    ensures
        compile_spec(n1, base).0 == compile_spec(n2, base).0,
        compile_spec(n1, base).1.len() == compile_spec(n2, base).1.len(),
{
    lemma_compile_shape(n1, n2, base);
}

/// Every child of a node is structurally smaller than the node.
pub proof fn lemma_each_child_decreases(n: GetLabelsWhere)
    ensures
        n._and is Some ==> forall|i: int|
            0 <= i < and_children(n).len() ==> decreases_to!(n => #[trigger] and_children(n)[i]),
        n._or is Some ==> forall|i: int|
            0 <= i < or_children(n).len() ==> decreases_to!(n => #[trigger] or_children(n)[i]),
{
    if n._and is Some {
        assert forall|i: int| 0 <= i < and_children(n).len() implies decreases_to!(n => #[trigger] and_children(n)[i]) by {
            lemma_child_decreases(n, and_children(n), i);
        }
    }
    if n._or is Some {
        assert forall|i: int| 0 <= i < or_children(n).len() implies decreases_to!(n => #[trigger] or_children(n)[i]) by {
            lemma_child_decreases(n, or_children(n), i);
        }
    }
}

/// Whether the tree constrains anything: some node of it has a field.
pub open spec fn imposes(n: GetLabelsWhere) -> bool
    decreases n,
{
    proof {
        lemma_each_child_decreases(n);
    }
    n.name is Some || n.description is Some || n.color is Some || (n._and is Some && exists|i: int|
        0 <= i < and_children(n).len() && imposes(#[trigger] and_children(n)[i])) || (n._or is Some
        && exists|i: int| 0 <= i < or_children(n).len() && imposes(#[trigger] or_children(n)[i]))
}

/// SQL equality against a column: an absent constraint holds, a NULL column
/// matches nothing.
pub open spec fn column_holds(c: Option<String>, v: Option<String>) -> bool {
    match c {
        Some(x) => v is Some && v->Some_0@ == x@,
        None => true,
    }
}

pub open spec fn fields_hold(n: GetLabelsWhere, l: Label) -> bool {
    column_holds(n.name, Some(l.name)) && column_holds(n.description, l.description)
        && column_holds(n.color, l.color)
}

/// Whether the node's AND group is non-empty.
pub open spec fn and_group_imposes(n: GetLabelsWhere) -> bool {
    n.name is Some || n.description is Some || n.color is Some || (n._and is Some && exists|i: int|
        0 <= i < and_children(n).len() && imposes(#[trigger] and_children(n)[i]))
}

/// Whether the node's OR group is non-empty.
pub open spec fn or_group_imposes(n: GetLabelsWhere) -> bool {
    n._or is Some && exists|i: int|
        0 <= i < or_children(n).len() && imposes(#[trigger] or_children(n)[i])
}

/// Whether label `l` satisfies the filter tree `n`, by the rule the compiled
/// fragment encodes.
pub open spec fn holds(n: GetLabelsWhere, l: Label) -> bool
    decreases n,
{
    proof {
        lemma_each_child_decreases(n);
    }
    let and_ok = fields_hold(n, l) && (n._and is Some ==> forall|i: int|
        0 <= i < and_children(n).len() ==> holds(#[trigger] and_children(n)[i], l));
    let or_ok = n._or is Some && exists|i: int|
        0 <= i < or_children(n).len() && imposes(#[trigger] or_children(n)[i]) && holds(
            or_children(n)[i],
            l,
        );
    if and_group_imposes(n) && or_group_imposes(n) {
        and_ok || or_ok
    } else if or_group_imposes(n) {
        or_ok
    } else {
        and_ok
    }
}

/// Whether the AND group of `n` holds of `l`.
pub open spec fn and_group_holds(n: GetLabelsWhere, l: Label) -> bool {
    fields_hold(n, l) && (n._and is Some ==> forall|i: int|
        0 <= i < and_children(n).len() ==> holds(#[trigger] and_children(n)[i], l))
}

/// Whether the OR group of `n` holds of `l`.
pub open spec fn or_group_holds(n: GetLabelsWhere, l: Label) -> bool {
    n._or is Some && exists|i: int|
        0 <= i < or_children(n).len() && imposes(#[trigger] or_children(n)[i]) && holds(
            or_children(n)[i],
            l,
        )
}

fn column_matches(c: &Option<String>, v: &Option<String>) -> (r: bool)
    ensures
        r == column_holds(*c, *v),
{
    match c {
        Some(x) => match v {
            Some(y) => *x == *y,
            None => false,
        },
        None => true,
    }
}

impl GetLabelsWhere {
    /// Whether this tree constrains anything.
    pub fn imposes(&self) -> (r: bool)
        ensures
            r == imposes(*self),
        decreases *self,
    {
        proof {
            lemma_each_child_decreases(*self);
        }
        if self.name.is_some() || self.description.is_some() || self.color.is_some() {
            return true;
        }
        if let Some(v) = &self._and {
            let mut i: usize = 0;
            while i < v.len()
                invariant
                    self._and == Some(*v),
                    0 <= i <= v.len(),
                    forall|k: int| 0 <= k < i ==> !imposes(#[trigger] v@[k]),
                decreases v.len() - i,
            {
                proof {
                    lemma_child_decreases(*self, v@, i as int);
                }
                if v[i].imposes() {
                    assert(imposes(and_children(*self)[i as int]));
                    return true;
                }
                i = i + 1;
            }
        }
        if let Some(v) = &self._or {
            let mut i: usize = 0;
            while i < v.len()
                invariant
                    self._or == Some(*v),
                    0 <= i <= v.len(),
                    forall|k: int| 0 <= k < i ==> !imposes(#[trigger] v@[k]),
                decreases v.len() - i,
            {
                proof {
                    lemma_child_decreases(*self, v@, i as int);
                }
                if v[i].imposes() {
                    assert(imposes(or_children(*self)[i as int]));
                    return true;
                }
                i = i + 1;
            }
        }
        false
    }

    /// Whether `label` satisfies this filter tree: the rows that the compiled
    /// fragment selects.
    pub fn matches(&self, label: &Label) -> (r: bool)
        ensures
            r == holds(*self, *label),
        decreases *self,
    {
        proof {
            lemma_each_child_decreases(*self);
        }
        let fields = column_matches(&self.name, &Some(label.name.clone())) && column_matches(
            &self.description,
            &label.description,
        ) && column_matches(&self.color, &label.color);
        let mut and_ok = fields;
        let mut and_some = self.name.is_some() || self.description.is_some()
            || self.color.is_some();
        if let Some(v) = &self._and {
            let mut i: usize = 0;
            while i < v.len()
                invariant
                    self._and == Some(*v),
                    0 <= i <= v.len(),
                    and_ok == (fields_hold(*self, *label) && forall|k: int|
                        0 <= k < i ==> holds(#[trigger] v@[k], *label)),
                    and_some == (self.name is Some || self.description is Some
                        || self.color is Some || exists|k: int|
                        0 <= k < i && imposes(#[trigger] v@[k])),
                decreases v.len() - i,
            {
                proof {
                    lemma_child_decreases(*self, v@, i as int);
                }
                let ok = v[i].matches(label);
                let some = v[i].imposes();
                proof {
                    assert(forall|k: int| 0 <= k < i + 1 && imposes(#[trigger] v@[k]) ==> (0 <= k < i
                        && imposes(v@[k])) || k == i);
                }
                and_ok = and_ok && ok;
                and_some = and_some || some;
                i = i + 1;
            }
        }
        let mut or_ok = false;
        let mut or_some = false;
        if let Some(v) = &self._or {
            let mut i: usize = 0;
            while i < v.len()
                invariant
                    self._or == Some(*v),
                    0 <= i <= v.len(),
                    or_ok == exists|k: int|
                        0 <= k < i && imposes(#[trigger] v@[k]) && holds(v@[k], *label),
                    or_some == exists|k: int| 0 <= k < i && imposes(#[trigger] v@[k]),
                decreases v.len() - i,
            {
                proof {
                    lemma_child_decreases(*self, v@, i as int);
                }
                let some = v[i].imposes();
                let ok = some && v[i].matches(label);
                proof {
                    if ok {
                        assert(imposes(v@[i as int]) && holds(v@[i as int], *label));
                    }
                    if some {
                        assert(imposes(v@[i as int]));
                    }
                }
                or_ok = or_ok || ok;
                or_some = or_some || some;
                i = i + 1;
            }
        }
        if and_some && or_some {
            and_ok || or_ok
        } else if or_some {
            or_ok
        } else {
            and_ok
        }
    }
}

/// With only the AND group `[a, b]`, a row satisfies the tree exactly when it
/// satisfies both `a` and `b`.
pub proof fn law_and_pair_holds(n: GetLabelsWhere, a: GetLabelsWhere, b: GetLabelsWhere, l: Label)
    requires
        n.name is None,
        n.description is None,
        n.color is None,
        n._and is Some,
        and_children(n) == seq![a, b],
        or_children(n).len() == 0,
    ensures
        holds(n, l) == (holds(a, l) && holds(b, l)),
{
    assert(!or_group_imposes(n));
    let cs = and_children(n);
    assert(cs[0] == a && cs[1] == b);
    if holds(a, l) && holds(b, l) {
        assert forall|i: int| 0 <= i < cs.len() implies holds(#[trigger] cs[i], l) by {
            if i == 0 {
            } else {
            }
        }
    }
}

/// With both groups non-empty, a row satisfies the tree exactly when it
/// satisfies the AND group or the OR group.
pub proof fn law_and_or_holds(n: GetLabelsWhere, l: Label)
    requires
        and_group_imposes(n),
        or_group_imposes(n),
    ensures
        holds(n, l) == (and_group_holds(n, l) || or_group_holds(n, l)),
{
}

proof fn lemma_fields_nonempty(fs: Seq<(Seq<char>, Seq<char>)>, base: nat)
    ensures
        (fold_fields(fs, base).0.len() > 0) == (fs.len() > 0),
    decreases fs.len(),
{
    reveal_strlit(" = $");
    if fs.len() > 0 {
        lemma_fields_nonempty(fs.subrange(0, fs.len() - 1), base);
    }
}

proof fn lemma_children_nonempty(cs: Seq<GetLabelsWhere>, acc0: FragModel, base: nat, sep: Seq<char>)
    ensures
        (fold_children(cs, acc0, base, sep).0.len() > 0) == (acc0.0.len() > 0 || exists|i: int|
            0 <= i < cs.len() && imposes(#[trigger] cs[i])),
    decreases cs, 0nat,
{
    if cs.len() > 0 {
        let init = cs.subrange(0, cs.len() - 1);
        lemma_children_nonempty(init, acc0, base, sep);
        let acc = fold_children(init, acc0, base, sep);
        assert(decreases_to!(cs => cs[cs.len() - 1]));
        lemma_compile_nonempty(cs[cs.len() - 1], base + acc.1.len());
        if exists|i: int| 0 <= i < cs.len() && imposes(#[trigger] cs[i]) {
            let i = choose|i: int| 0 <= i < cs.len() && imposes(#[trigger] cs[i]);
            if i < cs.len() - 1 {
                assert(imposes(init[i]));
            }
        }
        if exists|i: int| 0 <= i < init.len() && imposes(#[trigger] init[i]) {
            let i = choose|i: int| 0 <= i < init.len() && imposes(#[trigger] init[i]);
            assert(imposes(cs[i]));
        }
    }
}

/// A tree compiles to non-empty text exactly when it imposes a constraint,
/// whatever its first placeholder number.
pub proof fn lemma_compile_nonempty(n: GetLabelsWhere, base: nat)
    ensures
        (compile_spec(n, base).0.len() > 0) == imposes(n),
    decreases n, 1nat,
{
    lemma_children_decrease(n);
    reveal_strlit("name");
    lemma_fields_nonempty(field_seq(n), base);
    let f = fold_fields(field_seq(n), base);
    if n._and is Some {
        lemma_children_nonempty(and_children(n), f, base, " AND "@);
    }
    let a = if n._and is Some {
        fold_children(and_children(n), f, base, " AND "@)
    } else {
        f
    };
    if n._or is Some {
        lemma_children_nonempty(or_children(n), empty_frag(), base + a.1.len(), " OR "@);
    }
    reveal_strlit("(");
    reveal_strlit(")");
    assert((field_seq(n).len() > 0) == (n.name is Some || n.description is Some || n.color is Some));
}

/// A tree that constrains nothing compiles to no text, so a listing emits no
/// WHERE clause for it; one that constrains something never compiles empty.
pub proof fn law_unconstrained_compiles_empty(n: GetLabelsWhere, base: nat)
    ensures
        !imposes(n) ==> compile_spec(n, base).0.len() == 0,
        imposes(n) ==> compile_spec(n, base).0.len() > 0,
{
    lemma_compile_nonempty(n, base);
}

} // verus!
