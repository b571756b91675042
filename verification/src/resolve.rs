//! The conflict-target resolver.
//!
//! An `ON CONFLICT` clause may name the unique constraint it handles by a
//! list of column expressions, each optionally carrying a `COLLATE` wrapper;
//! an omitted list is a catch-all that matches every constraint.  The
//! resolver decides whether such a target list names the primary key, or a
//! given unique index.  Index matching is order-insensitive and demands
//! exact coverage: the target terms must consume the index's columns — as a
//! multiset of `(name, effective collation)` signatures — completely.

use vstd::prelude::*;

use crate::expr::{view_expr, view_exprs, Expr, ExprS};
use crate::names::{
    eq_ignore_case, eq_nocase, lemma_norm_seq_idempotent, norm_seq, normalize_ident,
};
use crate::schema::{col_index_seq, Column, Index, IndexColumn, Table};

verus! {

/// What one `ON CONFLICT` target term contributes: a normalized column
/// name and, when the term carries a `COLLATE` wrapper, a lower-cased
/// collation name.
#[derive(Debug, Clone, PartialEq, Eq)]
pub struct ConflictTarget {
    pub col_name: String,
    pub collate: Option<String>,
}

/// The model of a [`ConflictTarget`].
pub struct TargetKeyS {
    pub name: Seq<char>,
    pub collate: Option<Seq<char>>,
}

impl View for ConflictTarget {
    type V = TargetKeyS;

    open spec fn view(&self) -> TargetKeyS {
        TargetKeyS {
            name: self.col_name@,
            collate: match self.collate {
                Some(c) => Some(c@),
                None => None,
            },
        }
    }
}

/// An `ON CONFLICT` target list: one expression per term.
#[derive(Debug, PartialEq, Eq)]
pub struct UpsertIndex {
    pub targets: Vec<Expr>,
}

/// One `ON CONFLICT DO UPDATE` clause's conflict target: `None` is the
/// catch-all form.
#[derive(Debug, PartialEq, Eq)]
pub struct Upsert {
    pub index: Option<UpsertIndex>,
}

/// The key a target term extracts to: only simple column references
/// qualify — a bare identifier, a qualified or doubly-qualified name, a
/// one-element parenthesized wrapper, and a `COLLATE` wrapper that attaches
/// its lower-cased collation name and keeps descending.  The outermost
/// `COLLATE` wins.  Every other shape extracts to nothing.
pub open spec fn target_key_s(e: ExprS) -> Option<TargetKeyS>
    decreases e,
{
    match e {
        ExprS::Collate(inner, c) => match target_key_s(*inner) {
            Some(tk) => Some(TargetKeyS { name: tk.name, collate: Some(norm_seq(c)) }),
            None => None,
        },
        ExprS::Parenthesized(v) => if v.len() == 1 {
            target_key_s(v[0])
        } else {
            None
        },
        ExprS::Id(name) => Some(TargetKeyS { name: norm_seq(name), collate: None }),
        ExprS::Qualified(_t, col) => Some(TargetKeyS { name: norm_seq(col), collate: None }),
        ExprS::DoublyQualified(_s, _t, col) => Some(
            TargetKeyS { name: norm_seq(col), collate: None },
        ),
        _ => None,
    }
}

/// Extracted names are already normalized.
pub proof fn lemma_target_key_normalized(e: ExprS)
    ensures
        match target_key_s(e) {
            Some(tk) => tk.name == norm_seq(tk.name),
            None => true,
        },
    decreases e,
{
    match e {
        ExprS::Collate(inner, _c) => {
            lemma_target_key_normalized(*inner);
        },
        ExprS::Parenthesized(v) => {
            if v.len() == 1 {
                lemma_target_key_normalized(v[0]);
            }
        },
        ExprS::Id(name) => {
            lemma_norm_seq_idempotent(name);
        },
        ExprS::Qualified(_t, col) => {
            lemma_norm_seq_idempotent(col);
        },
        ExprS::DoublyQualified(_s, _t, col) => {
            lemma_norm_seq_idempotent(col);
        },
        _ => {},
    }
}

/// Extract `(column, optional collation)` from one target term, or nothing
/// if the term is not a simple column reference.  Callers treat `None` as
/// "cannot match any constraint", never as an error.
pub fn extract_target_key(e: &Expr) -> (r: Option<ConflictTarget>)
    ensures
        match r {
            Some(ct) => target_key_s(e@) == Some(ct@),
            None => target_key_s(e@) is None,
        },
    decreases *e,
{
    match e {
        Expr::Collate(inner, c) => {
            match extract_target_key(inner) {
                Some(mut tk) => {
                    tk.collate = Some(normalize_ident(c.as_str()));
                    Some(tk)
                },
                None => None,
            }
        },
        Expr::Parenthesized(v) => {
            if v.len() == 1 {
                let r = extract_target_key(&v[0]);
                proof {
                    crate::expr::lemma_view_exprs_index(v@, 0);
                }
                r
            } else {
                proof {
                    crate::expr::lemma_view_exprs_len(v@);
                }
                None
            }
        },
        Expr::Id(name) => Some(
            ConflictTarget { col_name: normalize_ident(name.as_str()), collate: None },
        ),
        Expr::Qualified(_t, col) => Some(
            ConflictTarget { col_name: normalize_ident(col.as_str()), collate: None },
        ),
        Expr::DoublyQualified(_s, _t, col) => Some(
            ConflictTarget { col_name: normalize_ident(col.as_str()), collate: None },
        ),
        _ => None,
    }
}

/// Index of the first primary-key or rowid-alias column, if any.
pub open spec fn pk_col_index_seq(cols: Seq<Column>) -> Option<int>
    decreases cols.len(),
{
    if cols.len() == 0 {
        None
    } else if cols[0].is_rowid_alias || cols[0].primary_key {
        Some(0int)
    } else {
        match pk_col_index_seq(cols.drop_first()) {
            Some(i) => Some(i + 1),
            None => None,
        }
    }
}

/// The name of the table's primary-key column: the first declared
/// primary-key or rowid-alias column, falling back to the implicit `rowid`.
pub open spec fn pk_name_s(table: Table) -> Seq<char> {
    match pk_col_index_seq(table.columns@) {
        Some(i) => table.columns@[i].name@,
        None => "rowid"@,
    }
}

/// Whether the conflict target names the primary key: an omitted target
/// matches by definition; an explicit target matches only with exactly one
/// term whose extracted name equals the primary-key column's name
/// case-insensitively.
pub open spec fn upsert_matches_pk_s(upsert: Upsert, table: Table) -> bool {
    match upsert.index {
        None => true,
        Some(ui) => ui.targets@.len() == 1 && match target_key_s(ui.targets@[0]@) {
            Some(tk) => eq_nocase(tk.name, pk_name_s(table)),
            None => false,
        },
    }
}

/// Decide whether the conflict target addresses the table's primary key.
pub fn upsert_matches_pk(upsert: &Upsert, table: &Table) -> (r: bool)
    ensures
        r == upsert_matches_pk_s(*upsert, *table),
{
    let t = match upsert.index.as_ref() {
        None => {
            return true;
        },
        Some(t) => t,
    };
    if t.targets.len() != 1 {
        return false;
    }
    let tk = match extract_target_key(&t.targets[0]) {
        None => {
            return false;
        },
        Some(tk) => tk,
    };
    match pk_col_lookup(table) {
        Some(i) => eq_ignore_case(tk.col_name.as_str(), table.columns[i].name.as_str()),
        None => eq_ignore_case(tk.col_name.as_str(), "rowid"),
    }
}

/// Find the first primary-key or rowid-alias column.
fn pk_col_lookup(table: &Table) -> (r: Option<usize>)
    ensures
        pk_col_index_seq(table.columns@) == match r {
            Some(i) => Some(i as int),
            None => None::<int>,
        },
        r is Some ==> r->0 < table.columns@.len(),
{
    let mut i: usize = 0;
    proof {
        assert(table.columns@.skip(0) =~= table.columns@);
    }
    while i < table.columns.len()
        invariant
            i <= table.columns.len(),
            pk_col_index_seq(table.columns@) == match pk_col_index_seq(
                table.columns@.skip(i as int),
            ) {
                Some(k) => Some(k + i),
                None => None::<int>,
            },
        decreases table.columns.len() - i,
    {
        let c = &table.columns[i];
        assert(table.columns@.skip(i as int)[0] == table.columns@[i as int]);
        if c.is_rowid_alias || c.primary_key {
            return Some(i);
        }
        assert(table.columns@.skip(i as int).drop_first() =~= table.columns@.skip(i as int + 1));
        i = i + 1;
    }
    assert(table.columns@.skip(i as int).len() == 0);
    None
}

/// A structural signature used as a multiset key when matching target
/// terms against an index's columns: the normalized column name and the
/// effective collation.
#[derive(Hash, Debug, Eq, PartialEq, Clone)]
pub struct KeySig {
    pub name: String,
    pub coll: String,
}

/// The model of a [`KeySig`].
pub struct SigS {
    pub name: Seq<char>,
    pub coll: Seq<char>,
}

impl View for KeySig {
    type V = SigS;

    open spec fn view(&self) -> SigS {
        SigS { name: self.name@, coll: self.coll@ }
    }
}

/// The signatures of a sequence of [`KeySig`]s.
pub open spec fn sigs_of(s: Seq<KeySig>) -> Seq<SigS> {
    Seq::new(s.len(), |i: int| s[i]@)
}

/// The effective collation of one index column: its explicit collation if
/// declared, else the table column's declared collation lower-cased, else
/// the default `binary`.
pub open spec fn effective_collation_s(ic: IndexColumn, table: Table) -> Seq<char> {
    match ic.collation {
        Some(c) => c@,
        None => match col_index_seq(table.columns@, ic.name@) {
            Some(i) => match table.columns@[i].collation {
                Some(c) => norm_seq(c@),
                None => "binary"@,
            },
            None => "binary"@,
        },
    }
}

/// The effective collation of an index column, the executable form of
/// [`effective_collation_s`].
pub fn effective_collation_for_index_col(idx_col: &IndexColumn, table: &Table) -> (r: String)
    ensures
        r@ == effective_collation_s(*idx_col, *table),
{
    match &idx_col.collation {
        Some(c) => c.clone(),
        None => {
            match table.get_column_by_name(idx_col.name.as_str()) {
                Some(i) => {
                    match &table.columns[i].collation {
                        Some(c) => normalize_ident(c.as_str()),
                        None => String::from_str("binary"),
                    }
                },
                None => String::from_str("binary"),
            }
        },
    }
}

/// One signature per index column, in index order.
pub open spec fn index_sigs(index: Index, table: Table) -> Seq<SigS> {
    Seq::new(
        index.columns@.len(),
        |i: int|
            SigS {
                name: norm_seq(index.columns@[i].name@),
                coll: effective_collation_s(index.columns@[i], table),
            },
    )
}

/// First position in `bag` carrying exactly this name and collation.
pub open spec fn find_exact(bag: Seq<SigS>, name: Seq<char>, coll: Seq<char>) -> Option<int>
    decreases bag.len(),
{
    if bag.len() == 0 {
        None
    } else if bag[0].name == name && bag[0].coll == coll {
        Some(0int)
    } else {
        match find_exact(bag.drop_first(), name, coll) {
            Some(i) => Some(i + 1),
            None => None,
        }
    }
}

/// First position in `bag` whose name matches case-insensitively,
/// regardless of its collation.
pub open spec fn find_name(bag: Seq<SigS>, name: Seq<char>) -> Option<int>
    decreases bag.len(),
{
    if bag.len() == 0 {
        None
    } else if eq_nocase(bag[0].name, name) {
        Some(0int)
    } else {
        match find_name(bag.drop_first(), name) {
            Some(i) => Some(i + 1),
            None => None,
        }
    }
}

/// What `find_exact` finds is in range and matches; `None` means nothing
/// matches.
pub proof fn lemma_find_exact_valid(bag: Seq<SigS>, name: Seq<char>, coll: Seq<char>)
    ensures
        match find_exact(bag, name, coll) {
            Some(i) => 0 <= i < bag.len() && bag[i].name == name && bag[i].coll == coll,
            None => forall|i: int|
                0 <= i < bag.len() ==> !(bag[i].name == name && bag[i].coll == coll),
        },
    decreases bag.len(),
{
    if bag.len() > 0 {
        lemma_find_exact_valid(bag.drop_first(), name, coll);
        match find_exact(bag, name, coll) {
            Some(i) => {
                if !(bag[0].name == name && bag[0].coll == coll) {
                    assert(bag.drop_first()[i - 1] == bag[i]);
                }
            },
            None => {
                assert forall|i: int| 0 <= i < bag.len() implies !(bag[i].name == name
                    && bag[i].coll == coll) by {
                    if i > 0 {
                        assert(bag.drop_first()[i - 1] == bag[i]);
                    }
                }
            },
        }
    }
}

/// What `find_name` finds is in range and matches; `None` means nothing
/// matches.
pub proof fn lemma_find_name_valid(bag: Seq<SigS>, name: Seq<char>)
    ensures
        match find_name(bag, name) {
            Some(i) => 0 <= i < bag.len() && eq_nocase(bag[i].name, name),
            None => forall|i: int| 0 <= i < bag.len() ==> !eq_nocase(bag[i].name, name),
        },
    decreases bag.len(),
{
    if bag.len() > 0 {
        lemma_find_name_valid(bag.drop_first(), name);
        match find_name(bag, name) {
            Some(i) => {
                if !eq_nocase(bag[0].name, name) {
                    assert(bag.drop_first()[i - 1] == bag[i]);
                }
            },
            None => {
                assert forall|i: int| 0 <= i < bag.len() implies !eq_nocase(bag[i].name, name) by {
                    if i > 0 {
                        assert(bag.drop_first()[i - 1] == bag[i]);
                    }
                }
            },
        }
    }
}

/// Consume the signature bag with the target terms, in order.  A term with
/// an explicit collation must remove an exact `(name, collation)` entry; a
/// term without one removes the first surviving entry whose name matches
/// case-insensitively.  A term that is not a simple column reference, or
/// that finds no entry, fails the whole match.
pub open spec fn consume_targets(bag: Seq<SigS>, terms: Seq<ExprS>) -> Option<Seq<SigS>>
    decreases terms.len(),
{
    if terms.len() == 0 {
        Some(bag)
    } else {
        match target_key_s(terms[0]) {
            None => None,
            Some(tk) => {
                let found = match tk.collate {
                    Some(c) => find_exact(bag, tk.name, c),
                    None => find_name(bag, tk.name),
                };
                match found {
                    Some(j) => consume_targets(bag.remove(j), terms.drop_first()),
                    None => None,
                }
            },
        }
    }
}

/// Whether the conflict target names this unique index: an omitted target
/// matches every index; an explicit one matches only a unique index whose
/// column count equals the term count and whose signature multiset the
/// terms consume completely.
pub open spec fn upsert_matches_index_s(upsert: Upsert, index: Index, table: Table) -> bool {
    match upsert.index {
        None => true,
        Some(ui) => {
            if !index.unique || ui.targets@.len() != index.columns@.len() {
                false
            } else {
                consume_targets(index_sigs(index, table), view_exprs(ui.targets@)) == Some(
                    Seq::<SigS>::empty(),
                )
            }
        },
    }
}

/// First bag entry equal to the probe, by position.
fn find_exact_pos(bag: &Vec<KeySig>, name: &String, coll: &String) -> (r: Option<usize>)
    ensures
        find_exact(sigs_of(bag@), name@, coll@) == match r {
            Some(i) => Some(i as int),
            None => None::<int>,
        },
        r is Some ==> r->0 < bag@.len(),
{
    let ghost sigs = sigs_of(bag@);
    let mut i: usize = 0;
    proof {
        assert(sigs.skip(0) =~= sigs);
    }
    while i < bag.len()
        invariant
            i <= bag.len(),
            sigs == sigs_of(bag@),
            find_exact(sigs, name@, coll@) == match find_exact(
                sigs.skip(i as int),
                name@,
                coll@,
            ) {
                Some(k) => Some(k + i),
                None => None::<int>,
            },
        decreases bag.len() - i,
    {
        assert(sigs.skip(i as int)[0] == sigs[i as int]);
        if bag[i].name == *name && bag[i].coll == *coll {
            return Some(i);
        }
        assert(sigs.skip(i as int).drop_first() =~= sigs.skip(i as int + 1));
        i = i + 1;
    }
    assert(sigs.skip(i as int).len() == 0);
    None
}

/// First bag entry whose name matches case-insensitively, by position.
fn find_name_pos(bag: &Vec<KeySig>, name: &String) -> (r: Option<usize>)
    ensures
        find_name(sigs_of(bag@), name@) == match r {
            Some(i) => Some(i as int),
            None => None::<int>,
        },
        r is Some ==> r->0 < bag@.len(),
{
    let ghost sigs = sigs_of(bag@);
    let mut i: usize = 0;
    proof {
        assert(sigs.skip(0) =~= sigs);
    }
    while i < bag.len()
        invariant
            i <= bag.len(),
            sigs == sigs_of(bag@),
            find_name(sigs, name@) == match find_name(sigs.skip(i as int), name@) {
                Some(k) => Some(k + i),
                None => None::<int>,
            },
        decreases bag.len() - i,
    {
        assert(sigs.skip(i as int)[0] == sigs[i as int]);
        if eq_ignore_case(bag[i].name.as_str(), name.as_str()) {
            return Some(i);
        }
        assert(sigs.skip(i as int).drop_first() =~= sigs.skip(i as int + 1));
        i = i + 1;
    }
    assert(sigs.skip(i as int).len() == 0);
    None
}

/// Decide whether the conflict target addresses this unique index,
/// honoring collations, ignoring the order of the target terms, and
/// demanding exact coverage of the index's columns.
#[verifier::loop_isolation(false)]
pub fn upsert_matches_index(upsert: &Upsert, index: &Index, table: &Table) -> (r: bool)
    ensures
        r == upsert_matches_index_s(*upsert, *index, *table),
{
    let target = match upsert.index.as_ref() {
        None => {
            return true;
        },
        Some(t) => t,
    };
    if !index.unique || target.targets.len() != index.columns.len() {
        return false;
    }
    let ghost init_sigs = index_sigs(*index, *table);
    let ghost ts = view_exprs(target.targets@);
    proof {
        crate::expr::lemma_view_exprs_len(target.targets@);
    }

    // Build the signature bag, one entry per index column, in index order.
    let mut bag: Vec<KeySig> = Vec::new();
    let mut i: usize = 0;
    while i < index.columns.len()
        invariant
            i <= index.columns.len(),
            bag@.len() == i,
            init_sigs == index_sigs(*index, *table),
            sigs_of(bag@) == init_sigs.take(i as int),
        decreases index.columns.len() - i,
    {
        let ic = &index.columns[i];
        let sig = KeySig {
            name: normalize_ident(ic.name.as_str()),
            coll: effective_collation_for_index_col(ic, table),
        };
        bag.push(sig);
        proof {
            assert(sigs_of(bag@) =~= init_sigs.take(i as int + 1));
        }
        i = i + 1;
    }
    proof {
        assert(init_sigs.take(index.columns@.len() as int) =~= init_sigs);
    }

    // Consume the bag with the target terms, order-insensitively.
    let mut k: usize = 0;
    proof {
        assert(ts.skip(0) =~= ts);
    }
    while k < target.targets.len()
        invariant
            k <= target.targets.len(),
            ts == view_exprs(target.targets@),
            ts.len() == target.targets@.len(),
            init_sigs == index_sigs(*index, *table),
            consume_targets(init_sigs, ts) == consume_targets(sigs_of(bag@), ts.skip(k as int)),
        decreases target.targets.len() - k,
    {
        proof {
            crate::expr::lemma_view_exprs_index(target.targets@, k as int);
            assert(ts.skip(k as int)[0] == ts[k as int]);
            assert(ts.skip(k as int).drop_first() =~= ts.skip(k as int + 1));
        }
        let tk = match extract_target_key(&target.targets[k]) {
            None => {
                proof {
                    assert(ts.skip(k as int).len() > 0);
                    assert(target_key_s(ts.skip(k as int)[0]) is None);
                    assert(consume_targets(sigs_of(bag@), ts.skip(k as int)) is None);
                }
                return false;
            },
            Some(tk) => tk,
        };
        proof {
            assert(target_key_s(ts.skip(k as int)[0]) == Some(tk@));
        }
        let found = match &tk.collate {
            Some(c) => find_exact_pos(&bag, &tk.col_name, c),
            None => find_name_pos(&bag, &tk.col_name),
        };
        let j = match found {
            None => {
                proof {
                    assert(ts.skip(k as int).len() > 0);
                    assert(consume_targets(sigs_of(bag@), ts.skip(k as int)) is None);
                }
                return false;
            },
            Some(j) => j,
        };
        let ghost old_bag = bag@;
        bag.remove(j);
        proof {
            assert(sigs_of(bag@) =~= sigs_of(old_bag).remove(j as int));
        }
        k = k + 1;
    }
    proof {
        assert(ts.skip(k as int).len() == 0);
    }
    let r = bag.len() == 0;
    proof {
        if bag@.len() == 0 {
            assert(sigs_of(bag@) =~= Seq::<SigS>::empty());
        } else {
            assert(sigs_of(bag@).len() > 0);
        }
    }
    r
}

/// The signature each target term contributes when it carries an explicit
/// collation (dummy entries stand where a term has none; the laws below
/// exclude those by hypothesis).
pub open spec fn explicit_sigs(terms: Seq<ExprS>) -> Seq<SigS> {
    Seq::new(
        terms.len(),
        |k: int|
            match target_key_s(terms[k]) {
                Some(tk) => SigS {
                    name: tk.name,
                    coll: match tk.collate {
                        Some(c) => c,
                        None => Seq::empty(),
                    },
                },
                None => SigS { name: Seq::empty(), coll: Seq::empty() },
            },
    )
}

/// The normalized column name each target term contributes.
pub open spec fn target_names(terms: Seq<ExprS>) -> Seq<Seq<char>> {
    Seq::new(
        terms.len(),
        |k: int|
            match target_key_s(terms[k]) {
                Some(tk) => tk.name,
                None => Seq::empty(),
            },
    )
}

/// The names of a signature bag, in order.
pub open spec fn sig_names(bag: Seq<SigS>) -> Seq<Seq<char>> {
    Seq::new(bag.len(), |i: int| bag[i].name)
}

/// When every term carries an explicit collation and the terms' signature
/// multiset equals the bag's, consumption empties the bag.
proof fn lemma_consume_all_explicit(bag: Seq<SigS>, terms: Seq<ExprS>)
    requires
        forall|k: int|
            0 <= k < terms.len() ==> match #[trigger] target_key_s(terms[k]) {
                Some(tk) => tk.collate is Some,
                None => false,
            },
        explicit_sigs(terms).to_multiset() == bag.to_multiset(),
    ensures
        consume_targets(bag, terms) == Some(Seq::<SigS>::empty()),
    decreases terms.len(),
{
    broadcast use vstd::seq_lib::group_to_multiset_ensures;
    broadcast use vstd::multiset::group_multiset_axioms;

    let es = explicit_sigs(terms);
    if terms.len() == 0 {
        assert(es.len() == 0);
        assert(bag.len() == bag.to_multiset().len());
        assert(es.len() == es.to_multiset().len());
        assert(bag =~= Seq::<SigS>::empty());
    } else {
        assert(match target_key_s(terms[0]) {
            Some(tk) => tk.collate is Some,
            None => false,
        });
        let tk = target_key_s(terms[0])->0;
        let c = tk.collate->0;
        let s0 = es[0];
        assert(s0 == SigS { name: tk.name, coll: c });
        assert(es.contains(s0)) by {
            assert(es[0] == s0);
        }
        assert(es.to_multiset().count(s0) > 0);
        assert(bag.to_multiset().count(s0) > 0);
        assert(bag.contains(s0));
        lemma_find_exact_valid(bag, tk.name, c);
        let j0 = choose|j: int| 0 <= j < bag.len() && bag[j] == s0;
        assert(bag[j0].name == tk.name && bag[j0].coll == c);
        assert(find_exact(bag, tk.name, c) is Some);
        let j = find_exact(bag, tk.name, c)->0;
        assert(bag[j] == SigS { name: bag[j].name, coll: bag[j].coll });
        assert(bag[j] == s0);
        assert(bag.remove(j).to_multiset() =~= bag.to_multiset().remove(s0));
        assert(es.remove(0).to_multiset() =~= es.to_multiset().remove(s0));
        assert(es.remove(0) =~= es.drop_first());
        assert(explicit_sigs(terms.drop_first()) =~= es.drop_first()) by {
            assert forall|k2: int| 0 <= k2 < terms.drop_first().len() implies explicit_sigs(
                terms.drop_first(),
            )[k2] == es.drop_first()[k2] by {
                assert(terms.drop_first()[k2] == terms[k2 + 1]);
            }
        }
        assert(explicit_sigs(terms.drop_first()).to_multiset() == bag.remove(j).to_multiset());
        assert forall|k2: int| 0 <= k2 < terms.drop_first().len() implies match #[trigger] target_key_s(
            terms.drop_first()[k2],
        ) {
            Some(tk2) => tk2.collate is Some,
            None => false,
        } by {
            assert(terms.drop_first()[k2] == terms[k2 + 1]);
        }
        lemma_consume_all_explicit(bag.remove(j), terms.drop_first());
    }
}

/// When no term carries an explicit collation, the bag's names are
/// normalized, and the terms' name multiset equals the bag's, consumption
/// empties the bag whatever each term's collation would have been.
proof fn lemma_consume_all_names(bag: Seq<SigS>, terms: Seq<ExprS>)
    requires
        forall|k: int|
            0 <= k < terms.len() ==> match #[trigger] target_key_s(terms[k]) {
                Some(tk) => tk.collate is None,
                None => false,
            },
        forall|i: int| 0 <= i < bag.len() ==> bag[i].name == norm_seq(#[trigger] bag[i].name),
        target_names(terms).to_multiset() == sig_names(bag).to_multiset(),
    ensures
        consume_targets(bag, terms) == Some(Seq::<SigS>::empty()),
    decreases terms.len(),
{
    broadcast use vstd::seq_lib::group_to_multiset_ensures;
    broadcast use vstd::multiset::group_multiset_axioms;

    let tn = target_names(terms);
    let bn = sig_names(bag);
    if terms.len() == 0 {
        assert(tn.len() == 0);
        assert(bag.len() == bn.len());
        assert(bn.len() == bn.to_multiset().len());
        assert(tn.len() == tn.to_multiset().len());
        assert(bag =~= Seq::<SigS>::empty());
    } else {
        assert(match target_key_s(terms[0]) {
            Some(tk) => tk.collate is None,
            None => false,
        });
        let tk = target_key_s(terms[0])->0;
        lemma_target_key_normalized(terms[0]);
        let n0 = tn[0];
        assert(n0 == tk.name);
        assert(tn.contains(n0)) by {
            assert(tn[0] == n0);
        }
        assert(tn.to_multiset().count(n0) > 0);
        assert(bn.to_multiset().count(n0) > 0);
        assert(bn.contains(n0));
        lemma_find_name_valid(bag, tk.name);
        let j0 = choose|j: int| 0 <= j < bn.len() && bn[j] == n0;
        assert(bag[j0].name == tk.name);
        assert(eq_nocase(bag[j0].name, tk.name));
        assert(find_name(bag, tk.name) is Some);
        let j = find_name(bag, tk.name)->0;
        assert(eq_nocase(bag[j].name, tk.name));
        assert(bag[j].name == tk.name);
        assert(sig_names(bag.remove(j)) =~= bn.remove(j)) by {
            assert forall|i: int| 0 <= i < bag.remove(j).len() implies sig_names(bag.remove(j))[i]
                == bn.remove(j)[i] by {
                if i < j {
                    assert(bag.remove(j)[i] == bag[i]);
                    assert(bn.remove(j)[i] == bn[i]);
                } else {
                    assert(bag.remove(j)[i] == bag[i + 1]);
                    assert(bn.remove(j)[i] == bn[i + 1]);
                }
            }
        }
        assert(bag.remove(j).to_multiset() =~= bag.to_multiset().remove(bag[j]));
        assert(bn.remove(j).to_multiset() =~= bn.to_multiset().remove(n0));
        assert(tn.remove(0).to_multiset() =~= tn.to_multiset().remove(n0));
        assert(tn.remove(0) =~= tn.drop_first());
        assert(target_names(terms.drop_first()) =~= tn.drop_first()) by {
            assert forall|k2: int| 0 <= k2 < terms.drop_first().len() implies target_names(
                terms.drop_first(),
            )[k2] == tn.drop_first()[k2] by {
                assert(terms.drop_first()[k2] == terms[k2 + 1]);
            }
        }
        assert(target_names(terms.drop_first()).to_multiset() == sig_names(
            bag.remove(j),
        ).to_multiset());
        assert forall|k2: int| 0 <= k2 < terms.drop_first().len() implies match #[trigger] target_key_s(
            terms.drop_first()[k2],
        ) {
            Some(tk2) => tk2.collate is None,
            None => false,
        } by {
            assert(terms.drop_first()[k2] == terms[k2 + 1]);
        }
        assert forall|i: int| 0 <= i < bag.remove(j).len() implies bag.remove(j)[i].name
            == norm_seq(#[trigger] bag.remove(j)[i].name) by {
            if i < j {
                assert(bag.remove(j)[i] == bag[i]);
            } else {
                assert(bag.remove(j)[i] == bag[i + 1]);
            }
        }
        lemma_consume_all_names(bag.remove(j), terms.drop_first());
    }
}

/// A target list whose terms all carry explicit collations and whose
/// `(name, collation)` signature multiset equals the unique index's
/// signature multiset matches the index — in whatever order the terms
/// stand, since the hypothesis is a multiset equality.
pub proof fn lemma_matches_index_multiset_explicit(upsert: Upsert, index: Index, table: Table)
    requires
        upsert.index is Some,
        index.unique,
        (upsert.index->0).targets@.len() == index.columns@.len(),
        forall|k: int|
            0 <= k < view_exprs((upsert.index->0).targets@).len() ==> match #[trigger] target_key_s(
                view_exprs((upsert.index->0).targets@)[k],
            ) {
                Some(tk) => tk.collate is Some,
                None => false,
            },
        explicit_sigs(view_exprs((upsert.index->0).targets@)).to_multiset() == index_sigs(
            index,
            table,
        ).to_multiset(),
    ensures
        upsert_matches_index_s(upsert, index, table),
{
    lemma_consume_all_explicit(
        index_sigs(index, table),
        view_exprs((upsert.index->0).targets@),
    );
}

/// A target list without explicit collations whose name multiset equals
/// the unique index's column-name multiset matches the index — in whatever
/// order the terms stand.
pub proof fn lemma_matches_index_multiset_names(upsert: Upsert, index: Index, table: Table)
    requires
        upsert.index is Some,
        index.unique,
        (upsert.index->0).targets@.len() == index.columns@.len(),
        forall|k: int|
            0 <= k < view_exprs((upsert.index->0).targets@).len() ==> match #[trigger] target_key_s(
                view_exprs((upsert.index->0).targets@)[k],
            ) {
                Some(tk) => tk.collate is None,
                None => false,
            },
        target_names(view_exprs((upsert.index->0).targets@)).to_multiset() == sig_names(
            index_sigs(index, table),
        ).to_multiset(),
    ensures
        upsert_matches_index_s(upsert, index, table),
{
    let bag = index_sigs(index, table);
    assert forall|i: int| 0 <= i < bag.len() implies bag[i].name == norm_seq(
        #[trigger] bag[i].name,
    ) by {
        lemma_norm_seq_idempotent(index.columns@[i].name@);
    }
    lemma_consume_all_names(bag, view_exprs((upsert.index->0).targets@));
}

/// An explicit target never matches a non-unique index, nor one whose
/// column count differs from its term count.
pub proof fn lemma_matches_index_count_or_unique(upsert: Upsert, index: Index, table: Table)
    requires
        upsert.index is Some,
        !index.unique || (upsert.index->0).targets@.len() != index.columns@.len(),
    ensures
        !upsert_matches_index_s(upsert, index, table),
{
}

/// Consumption fails outright when some term is not a simple column
/// reference.
proof fn lemma_consume_none_on_bad_term(bag: Seq<SigS>, terms: Seq<ExprS>, k: int)
    requires
        0 <= k < terms.len(),
        target_key_s(terms[k]) is None,
    ensures
        consume_targets(bag, terms) is None,
    decreases terms.len(),
{
    if k > 0 {
        match target_key_s(terms[0]) {
            None => {},
            Some(tk) => {
                let found = match tk.collate {
                    Some(c) => find_exact(bag, tk.name, c),
                    None => find_name(bag, tk.name),
                };
                match found {
                    Some(j) => {
                        assert(terms.drop_first()[k - 1] == terms[k]);
                        lemma_consume_none_on_bad_term(bag.remove(j), terms.drop_first(), k - 1);
                    },
                    None => {},
                }
            },
        }
    }
}

/// A target list containing a term that is not a simple column reference
/// (a function call, a literal, an operator) matches no index, however
/// well its other terms line up.
pub proof fn lemma_matches_index_non_column_term(
    upsert: Upsert,
    index: Index,
    table: Table,
    k: int,
)
    requires
        upsert.index is Some,
        0 <= k < (upsert.index->0).targets@.len(),
        target_key_s((upsert.index->0).targets@[k]@) is None,
    ensures
        !upsert_matches_index_s(upsert, index, table),
{
    let ts = view_exprs((upsert.index->0).targets@);
    crate::expr::lemma_view_exprs_index((upsert.index->0).targets@, k);
    if index.unique && (upsert.index->0).targets@.len() == index.columns@.len() {
        lemma_consume_none_on_bad_term(index_sigs(index, table), ts, k);
    }
}

/// An omitted conflict target is a catch-all: it matches the primary key
/// and every index.
pub proof fn lemma_omitted_target_catch_all(upsert: Upsert, index: Index, table: Table)
    requires
        upsert.index is None,
    ensures
        upsert_matches_pk_s(upsert, table),
        upsert_matches_index_s(upsert, index, table),
{
}

} // verus!
