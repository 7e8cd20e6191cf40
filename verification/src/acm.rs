//! The allowed-collision matrix a `moveit_msgs/AllowedCollisionMatrix`
//! message describes, and its decoding.
//!
//! A matrix holds two kinds of setting: a default per name, and explicit
//! entries per pair of names. A pair with no explicit entry is governed by
//! the two names' defaults combined: never if either says never, else
//! conditional if either is conditional, else always.
//!
//! Decoding sets the defaults first and then walks the strict upper
//! triangle of the square `entry_values`, storing a cell explicitly only
//! when it differs from the pair's combined default (with "never" when
//! neither name has a default). Which cells are stored is observable: they
//! are the ones a later encoding reports as explicit entries.

use vstd::prelude::*;
use vstd::string::StringExecFns;

use crate::error::Error;
use crate::text::{decimal, decimal_string, string_views};

verus! {

/// Whether a pair of bodies may collide.
#[derive(Debug, Clone, Copy, PartialEq, Eq, Structural)]
pub enum AllowedCollisionType {
    /// Collisions between the pair are never allowed.
    Never,
    /// Collisions between the pair are always allowed.
    Always,
    /// Whether a collision is allowed is decided by a callback.
    Conditional,
}

/// The type an allowed flag stands for.
pub open spec fn type_of(allowed: bool) -> AllowedCollisionType {
    if allowed {
        AllowedCollisionType::Always
    } else {
        AllowedCollisionType::Never
    }
}

/// The combination of two defaults: never wins, then conditional.
pub open spec fn combine(a: AllowedCollisionType, b: AllowedCollisionType) -> AllowedCollisionType {
    if a == AllowedCollisionType::Never || b == AllowedCollisionType::Never {
        AllowedCollisionType::Never
    } else if a == AllowedCollisionType::Conditional || b == AllowedCollisionType::Conditional {
        AllowedCollisionType::Conditional
    } else {
        AllowedCollisionType::Always
    }
}

/// The default a list of default settings leaves for `name`: the last one
/// set, if any.
pub open spec fn default_of(ds: Seq<(Seq<char>, AllowedCollisionType)>, name: Seq<char>) -> Option<
    AllowedCollisionType,
>
    decreases ds.len(),
{
    if ds.len() == 0 {
        None
    } else if ds.last().0 == name {
        Some(ds.last().1)
    } else {
        default_of(ds.drop_last(), name)
    }
}

/// Whether an entry names the pair `(a, b)`, in either order.
pub open spec fn names_pair(e: (Seq<char>, Seq<char>, AllowedCollisionType), a: Seq<char>, b: Seq<char>) -> bool {
    (e.0 == a && e.1 == b) || (e.0 == b && e.1 == a)
}

/// The explicit entry a list of entry settings leaves for the pair: the
/// last one set, if any.
pub open spec fn entry_of(
    es: Seq<(Seq<char>, Seq<char>, AllowedCollisionType)>,
    a: Seq<char>,
    b: Seq<char>,
) -> Option<AllowedCollisionType>
    decreases es.len(),
{
    if es.len() == 0 {
        None
    } else if names_pair(es.last(), a, b) {
        Some(es.last().2)
    } else {
        entry_of(es.drop_last(), a, b)
    }
}

/// The combined default of two names, if either has one.
pub open spec fn combined_default_of(
    ds: Seq<(Seq<char>, AllowedCollisionType)>,
    a: Seq<char>,
    b: Seq<char>,
) -> Option<AllowedCollisionType> {
    match (default_of(ds, a), default_of(ds, b)) {
        (None, None) => None,
        (Some(t), None) => Some(t),
        (None, Some(t)) => Some(t),
        (Some(x), Some(y)) => Some(combine(x, y)),
    }
}

/// The abstract value of a matrix: every default and every explicit entry
/// set on it, in the order they were set. Later settings win.
pub struct AcmView {
    pub defaults: Seq<(Seq<char>, AllowedCollisionType)>,
    pub entries: Seq<(Seq<char>, Seq<char>, AllowedCollisionType)>,
}

/// Whether a pair may collide: its explicit entry, else its combined
/// default.
pub open spec fn allowed_of(v: AcmView, a: Seq<char>, b: Seq<char>) -> Option<AllowedCollisionType> {
    match entry_of(v.entries, a, b) {
        Some(t) => Some(t),
        None => combined_default_of(v.defaults, a, b),
    }
}

/// An allowed-collision matrix.
#[derive(Debug, Clone)]
pub struct AllowedCollisionMatrix {
    defaults: Vec<(String, AllowedCollisionType)>,
    entries: Vec<(String, String, AllowedCollisionType)>,
}

impl View for AllowedCollisionMatrix {
    type V = AcmView;

    closed spec fn view(&self) -> AcmView {
        AcmView {
            defaults: self.defaults@.map_values(|d: (String, AllowedCollisionType)| (d.0@, d.1)),
            entries: self.entries@.map_values(
                |e: (String, String, AllowedCollisionType)| (e.0@, e.1@, e.2),
            ),
        }
    }
}

impl AllowedCollisionMatrix {
    /// The matrix with no defaults and no entries.
    pub fn new() -> (m: AllowedCollisionMatrix)
        ensures
            m@.defaults.len() == 0,
            m@.entries.len() == 0,
    {
        AllowedCollisionMatrix { defaults: Vec::new(), entries: Vec::new() }
    }

    /// Sets `name`'s default: always when `allowed`, else never.
    pub fn set_default_entry(&mut self, name: &str, allowed: bool)
        ensures
            final(self)@.defaults == old(self)@.defaults.push((name@, type_of(allowed))),
            final(self)@.entries == old(self)@.entries,
    {
        let t = if allowed {
            AllowedCollisionType::Always
        } else {
            AllowedCollisionType::Never
        };
        let ghost before = self@;
        self.defaults.push((name.to_owned(), t));
        proof {
            assert(self@.defaults =~= before.defaults.push((name@, type_of(allowed))));
            assert(self@.entries =~= before.entries);
        }
    }

    /// Sets the explicit entry of the pair: always when `allowed`, else
    /// never.
    pub fn set_entry(&mut self, name1: &str, name2: &str, allowed: bool)
        ensures
            final(self)@.entries == old(self)@.entries.push((name1@, name2@, type_of(allowed))),
            final(self)@.defaults == old(self)@.defaults,
    {
        let t = if allowed {
            AllowedCollisionType::Always
        } else {
            AllowedCollisionType::Never
        };
        let ghost before = self@;
        self.entries.push((name1.to_owned(), name2.to_owned(), t));
        proof {
            assert(self@.entries =~= before.entries.push((name1@, name2@, type_of(allowed))));
            assert(self@.defaults =~= before.defaults);
        }
    }

    /// `name`'s default, if it has one.
    pub fn default_entry(&self, name: &str) -> (r: Option<AllowedCollisionType>)
        ensures
            r == default_of(self@.defaults, name@),
    {
        let ghost ds = self@.defaults;
        let target = name.to_owned();
        let mut i = self.defaults.len();
        proof {
            assert(ds.take(i as int) =~= ds);
        }
        while i > 0
            invariant
                ds == self@.defaults,
                ds.len() == self.defaults@.len(),
                i <= ds.len(),
                target@ == name@,
                default_of(ds, name@) == default_of(ds.take(i as int), name@),
            decreases i,
        {
            assert(ds.take(i as int).drop_last() =~= ds.take(i - 1));
            assert(ds[i - 1] == (self.defaults@[i - 1].0@, self.defaults@[i - 1].1));
            if self.defaults[i - 1].0 == target {
                return Some(self.defaults[i - 1].1);
            }
            i = i - 1;
        }
        None
    }

    /// The explicit entry of the pair, in either order, if it has one.
    pub fn pair_entry(&self, name1: &str, name2: &str) -> (r: Option<AllowedCollisionType>)
        ensures
            r == entry_of(self@.entries, name1@, name2@),
    {
        let ghost es = self@.entries;
        let a = name1.to_owned();
        let b = name2.to_owned();
        let mut i = self.entries.len();
        proof {
            assert(es.take(i as int) =~= es);
        }
        while i > 0
            invariant
                es == self@.entries,
                es.len() == self.entries@.len(),
                i <= es.len(),
                a@ == name1@,
                b@ == name2@,
                entry_of(es, name1@, name2@) == entry_of(es.take(i as int), name1@, name2@),
            decreases i,
        {
            assert(es.take(i as int).drop_last() =~= es.take(i - 1));
            assert(es[i - 1] == (
                self.entries@[i - 1].0@,
                self.entries@[i - 1].1@,
                self.entries@[i - 1].2,
            ));
            let e = &self.entries[i - 1];
            if (e.0 == a && e.1 == b) || (e.0 == b && e.1 == a) {
                return Some(e.2);
            }
            i = i - 1;
        }
        None
    }

    /// Whether the pair has an explicit entry.
    pub fn has_pair_entry(&self, name1: &str, name2: &str) -> (b: bool)
        ensures
            b == (entry_of(self@.entries, name1@, name2@) is Some),
    {
        self.pair_entry(name1, name2).is_some()
    }

    /// The combined default of two names, if either has one.
    pub fn combined_default(&self, name1: &str, name2: &str) -> (r: Option<AllowedCollisionType>)
        ensures
            r == combined_default_of(self@.defaults, name1@, name2@),
    {
        let t1 = self.default_entry(name1);
        let t2 = self.default_entry(name2);
        match (t1, t2) {
            (None, None) => None,
            (Some(t), None) => Some(t),
            (None, Some(t)) => Some(t),
            (Some(x), Some(y)) => Some(
                if x == AllowedCollisionType::Never || y == AllowedCollisionType::Never {
                    AllowedCollisionType::Never
                } else if x == AllowedCollisionType::Conditional || y
                    == AllowedCollisionType::Conditional {
                    AllowedCollisionType::Conditional
                } else {
                    AllowedCollisionType::Always
                },
            ),
        }
    }

    /// Whether the pair may collide: its explicit entry, else the combined
    /// default of its names, else nothing is known.
    pub fn allowed_collision(&self, name1: &str, name2: &str) -> (r: Option<AllowedCollisionType>)
        ensures
            r == allowed_of(self@, name1@, name2@),
    {
        match self.pair_entry(name1, name2) {
            Some(t) => Some(t),
            None => self.combined_default(name1, name2),
        }
    }
}

/// One row of a matrix message: the allowed flag against every name.
#[derive(Debug, Clone, PartialEq, Eq)]
pub struct AllowedCollisionEntry {
    pub enabled: Vec<bool>,
}

/// A `moveit_msgs/AllowedCollisionMatrix`.
#[derive(Debug, Clone, PartialEq, Eq)]
pub struct AllowedCollisionMatrixMsg {
    pub entry_names: Vec<String>,
    pub entry_values: Vec<AllowedCollisionEntry>,
    pub default_entry_names: Vec<String>,
    pub default_entry_values: Vec<bool>,
}

/// The defaults a message sets, in order.
pub open spec fn msg_defaults(names: Seq<String>, values: Seq<bool>) -> Seq<(Seq<char>, AllowedCollisionType)> {
    Seq::new(names.len(), |i: int| (names[i]@, type_of(values[i])))
}

/// The cells of row `i` from column `j` on that differ from their pair's
/// combined default (never when neither name has one), in column order.
pub open spec fn row_cells(
    names: Seq<Seq<char>>,
    rows: Seq<Seq<bool>>,
    ds: Seq<(Seq<char>, AllowedCollisionType)>,
    i: int,
    j: int,
) -> Seq<(Seq<char>, Seq<char>, AllowedCollisionType)>
    decreases names.len() - j,
{
    if j < 0 || j >= names.len() {
        Seq::empty()
    } else {
        let default = match combined_default_of(ds, names[i], names[j]) {
            Some(t) => t,
            None => AllowedCollisionType::Never,
        };
        let here = if type_of(rows[i][j]) != default {
            seq![(names[i], names[j], type_of(rows[i][j]))]
        } else {
            Seq::empty()
        };
        here + row_cells(names, rows, ds, i, j + 1)
    }
}

/// The cells of rows `i` on, each row's strict upper part, in row order.
pub open spec fn upper_cells(
    names: Seq<Seq<char>>,
    rows: Seq<Seq<bool>>,
    ds: Seq<(Seq<char>, AllowedCollisionType)>,
    i: int,
) -> Seq<(Seq<char>, Seq<char>, AllowedCollisionType)>
    decreases names.len() - i,
{
    if i < 0 || i >= names.len() {
        Seq::empty()
    } else {
        row_cells(names, rows, ds, i, i + 1) + upper_cells(names, rows, ds, i + 1)
    }
}

/// The text of the error for arrays that do not pair up.
pub open spec fn length_mismatch_message(en: nat, ev: nat, dn: nat, dv: nat) -> Seq<char> {
    "AllowedCollisionMatrix: entry_names/entry_values are "@ + decimal(en) + "/"@ + decimal(ev)
        + " and default_entry_names/default_entry_values are "@ + decimal(dn) + "/"@ + decimal(dv)
        + "; each pair must have equal length"@
}

/// The text of the error for a row whose length is not the matrix's.
pub open spec fn non_square_message(name: Seq<char>, len: nat, n: nat) -> Seq<char> {
    "AllowedCollisionMatrix: row '"@ + name + "' has "@ + decimal(len)
        + " enabled flag(s) but the matrix has "@ + decimal(n)
        + " entry name(s); the matrix must be square"@
}

/// The first row, from `i` on, whose length is not the number of names.
pub open spec fn first_non_square(rows: Seq<Seq<bool>>, n: nat, i: int) -> Option<int>
    decreases rows.len() - i,
{
    if i < 0 || i >= rows.len() {
        None
    } else if rows[i].len() != n {
        Some(i)
    } else {
        first_non_square(rows, n, i + 1)
    }
}

/// The rows of a message as flag sequences.
pub open spec fn msg_rows(values: Seq<AllowedCollisionEntry>) -> Seq<Seq<bool>> {
    values.map_values(|e: AllowedCollisionEntry| e.enabled@)
}

/// What decoding a message yields.
pub open spec fn spec_decode(msg: AllowedCollisionMatrixMsg) -> Result<AcmView, Seq<char>> {
    let en = msg.entry_names@.len();
    let ev = msg.entry_values@.len();
    let dn = msg.default_entry_names@.len();
    let dv = msg.default_entry_values@.len();
    if en != ev || dn != dv {
        Err(length_mismatch_message(en, ev, dn, dv))
    } else {
        let names = string_views(msg.entry_names@);
        let rows = msg_rows(msg.entry_values@);
        match first_non_square(rows, en, 0) {
            Some(i) => Err(non_square_message(names[i], rows[i].len(), en)),
            None => {
                let ds = msg_defaults(msg.default_entry_names@, msg.default_entry_values@);
                Ok(AcmView { defaults: ds, entries: upper_cells(names, rows, ds, 0) })
            },
        }
    }
}

proof fn lemma_first_non_square_found(rows: Seq<Seq<bool>>, n: nat, i: int)
    requires
        0 <= i < rows.len(),
        rows[i].len() != n,
        forall|k: int| 0 <= k < i ==> #[trigger] rows[k].len() == n,
    ensures
        first_non_square(rows, n, 0) == Some(i),
{
    assert forall|m: int| 0 <= m <= i implies first_non_square(rows, n, m) == Some(i) by {
        lemma_first_non_square_from(rows, n, m, i);
    }
}

proof fn lemma_first_non_square_from(rows: Seq<Seq<bool>>, n: nat, m: int, i: int)
    requires
        0 <= m <= i < rows.len(),
        rows[i].len() != n,
        forall|k: int| 0 <= k < i ==> #[trigger] rows[k].len() == n,
    ensures
        first_non_square(rows, n, m) == Some(i),
    decreases i - m,
{
    if m < i {
        lemma_first_non_square_from(rows, n, m + 1, i);
    }
}

proof fn lemma_all_square(rows: Seq<Seq<bool>>, n: nat, m: int)
    requires
        0 <= m <= rows.len(),
        forall|k: int| 0 <= k < rows.len() ==> #[trigger] rows[k].len() == n,
    ensures
        first_non_square(rows, n, m) is None,
    decreases rows.len() - m,
{
    if m < rows.len() {
        lemma_all_square(rows, n, m + 1);
    }
}

impl AllowedCollisionMatrix {
    /// Decodes a matrix message.
    ///
    /// Fails, without a partly built matrix, when a name array and its value
    /// array differ in length or a row is not as long as the matrix is wide.
    pub fn try_from(msg: AllowedCollisionMatrixMsg) -> (r: Result<AllowedCollisionMatrix, Error>)
        ensures
            match (r, spec_decode(msg)) {
                (Ok(acm), Ok(v)) => acm@ == v,
                (Err(Error::Construct(m)), Err(t)) => m@ == t,
                _ => false,
            },
    {
        let en = msg.entry_names.len();
        let ev = msg.entry_values.len();
        let dn = msg.default_entry_names.len();
        let dv = msg.default_entry_values.len();
        if en != ev || dn != dv {
            let mut m = String::from_str("AllowedCollisionMatrix: entry_names/entry_values are ");
            let s = decimal_string(en as u64);
            m.append(s.as_str());
            m.append("/");
            let s = decimal_string(ev as u64);
            m.append(s.as_str());
            m.append(" and default_entry_names/default_entry_values are ");
            let s = decimal_string(dn as u64);
            m.append(s.as_str());
            m.append("/");
            let s = decimal_string(dv as u64);
            m.append(s.as_str());
            m.append("; each pair must have equal length");
            return Err(Error::Construct(m));
        }
        let mut acm = AllowedCollisionMatrix::new();
        let mut d: usize = 0;
        while d < dn
            invariant
                dn == msg.default_entry_names@.len(),
                dn == msg.default_entry_values@.len(),
                d <= dn,
                acm@.defaults == msg_defaults(msg.default_entry_names@, msg.default_entry_values@).take(d as int),
                acm@.entries.len() == 0,
            decreases dn - d,
        {
            acm.set_default_entry(msg.default_entry_names[d].as_str(), msg.default_entry_values[d]);
            assert(msg_defaults(msg.default_entry_names@, msg.default_entry_values@).take(d + 1)
                =~= msg_defaults(msg.default_entry_names@, msg.default_entry_values@).take(d as int).push(
                (msg.default_entry_names@[d as int]@, type_of(msg.default_entry_values@[d as int])),
            ));
            d = d + 1;
        }
        let ghost ds = msg_defaults(msg.default_entry_names@, msg.default_entry_values@);
        let ghost names = string_views(msg.entry_names@);
        let ghost rows = msg_rows(msg.entry_values@);
        proof {
            assert(ds.take(dn as int) =~= ds);
            assert(acm@.entries =~= Seq::<(Seq<char>, Seq<char>, AllowedCollisionType)>::empty());
        }
        let mut i: usize = 0;
        while i < en
            invariant
                en == msg.entry_names@.len(),
                en == msg.entry_values@.len(),
                names == string_views(msg.entry_names@),
                rows == msg_rows(msg.entry_values@),
                ds == msg_defaults(msg.default_entry_names@, msg.default_entry_values@),
                msg.default_entry_names@.len() == msg.default_entry_values@.len(),
                i <= en,
                acm@.defaults == ds,
                forall|k: int| 0 <= k < i ==> #[trigger] rows[k].len() == en,
                acm@.entries + upper_cells(names, rows, ds, i as int) == upper_cells(names, rows, ds, 0),
            decreases en - i,
        {
            let row_len = msg.entry_values[i].enabled.len();
            assert(rows[i as int] == msg.entry_values@[i as int].enabled@);
            if row_len != en {
                proof {
                    lemma_first_non_square_found(rows, en as nat, i as int);
                    assert(names[i as int] == msg.entry_names@[i as int]@);
                    assert(rows[i as int].len() == row_len);
                }
                let mut m = String::from_str("AllowedCollisionMatrix: row '");
                m.append(msg.entry_names[i].as_str());
                m.append("' has ");
                let s = decimal_string(row_len as u64);
                m.append(s.as_str());
                m.append(" enabled flag(s) but the matrix has ");
                let s = decimal_string(en as u64);
                m.append(s.as_str());
                m.append(" entry name(s); the matrix must be square");
                return Err(Error::Construct(m));
            }
            let mut j: usize = i + 1;
            proof {
                assert(upper_cells(names, rows, ds, i as int) == row_cells(names, rows, ds, i as int, j as int)
                    + upper_cells(names, rows, ds, i + 1));
                assert(acm@.entries + (row_cells(names, rows, ds, i as int, j as int) + upper_cells(names, rows, ds, i + 1))
                    =~= (acm@.entries + row_cells(names, rows, ds, i as int, j as int)) + upper_cells(names, rows, ds, i + 1));
            }
            while j < en
                invariant
                    en == msg.entry_names@.len(),
                    en == msg.entry_values@.len(),
                    names == string_views(msg.entry_names@),
                    rows == msg_rows(msg.entry_values@),
                    ds == msg_defaults(msg.default_entry_names@, msg.default_entry_values@),
                    i < en,
                    i < j <= en,
                    rows[i as int].len() == en,
                    msg.entry_values@[i as int].enabled@ == rows[i as int],
                    acm@.defaults == ds,
                    acm@.entries + row_cells(names, rows, ds, i as int, j as int) + upper_cells(names, rows, ds, i + 1)
                        == upper_cells(names, rows, ds, 0),
                decreases en - j,
            {
                let flag = msg.entry_values[i].enabled[j];
                let default = match acm.combined_default(msg.entry_names[i].as_str(), msg.entry_names[j].as_str()) {
                    Some(t) => t,
                    None => AllowedCollisionType::Never,
                };
                let entry = if flag {
                    AllowedCollisionType::Always
                } else {
                    AllowedCollisionType::Never
                };
                let ghost before = acm@.entries;
                let ghost rest = row_cells(names, rows, ds, i as int, j + 1);
                proof {
                    assert(names[i as int] == msg.entry_names@[i as int]@);
                    assert(names[j as int] == msg.entry_names@[j as int]@);
                    assert(rows[i as int][j as int] == flag);
                }
                if entry != default {
                    acm.set_entry(msg.entry_names[i].as_str(), msg.entry_names[j].as_str(), flag);
                    proof {
                        assert(row_cells(names, rows, ds, i as int, j as int) == seq![(names[i as int], names[j as int], entry)] + rest);
                        assert(before + (seq![(names[i as int], names[j as int], entry)] + rest) =~= before.push(
                            (names[i as int], names[j as int], entry),
                        ) + rest);
                    }
                } else {
                    proof {
                        assert(row_cells(names, rows, ds, i as int, j as int) =~= Seq::empty() + rest);
                        assert(Seq::<(Seq<char>, Seq<char>, AllowedCollisionType)>::empty() + rest =~= rest);
                    }
                }
                j = j + 1;
            }
            proof {
                assert(row_cells(names, rows, ds, i as int, en as int) =~= Seq::empty());
                assert(acm@.entries + Seq::<(Seq<char>, Seq<char>, AllowedCollisionType)>::empty() =~= acm@.entries);
            }
            i = i + 1;
        }
        proof {
            lemma_all_square(rows, en as nat, 0);
            assert(upper_cells(names, rows, ds, en as int) =~= Seq::empty());
            assert(acm@.entries + Seq::<(Seq<char>, Seq<char>, AllowedCollisionType)>::empty() =~= acm@.entries);
        }
        Ok(acm)
    }
}

/// The combined default a cell of row `i`, column `j` is compared with:
/// never when neither name has a default.
pub open spec fn cell_default(
    names: Seq<Seq<char>>,
    ds: Seq<(Seq<char>, AllowedCollisionType)>,
    i: int,
    j: int,
) -> AllowedCollisionType {
    match combined_default_of(ds, names[i], names[j]) {
        Some(t) => t,
        None => AllowedCollisionType::Never,
    }
}

/// Whether the cell of row `i`, column `j` is stored explicitly.
pub open spec fn cell_stored(
    names: Seq<Seq<char>>,
    rows: Seq<Seq<bool>>,
    ds: Seq<(Seq<char>, AllowedCollisionType)>,
    i: int,
    j: int,
) -> bool {
    type_of(rows[i][j]) != cell_default(names, ds, i, j)
}

/// No name occurs twice.
pub open spec fn distinct_names(names: Seq<Seq<char>>) -> bool {
    forall|a: int, b: int| 0 <= a < names.len() && 0 <= b < names.len() && a != b ==> #[trigger] names[a] != #[trigger] names[b]
}

proof fn lemma_entry_of_concat(
    a: Seq<(Seq<char>, Seq<char>, AllowedCollisionType)>,
    b: Seq<(Seq<char>, Seq<char>, AllowedCollisionType)>,
    x: Seq<char>,
    y: Seq<char>,
)
    ensures
        entry_of(a + b, x, y) == match entry_of(b, x, y) {
            Some(t) => Some(t),
            None => entry_of(a, x, y),
        },
    decreases b.len(),
{
    if b.len() == 0 {
        assert(a + b =~= a);
    } else {
        assert((a + b).drop_last() =~= a + b.drop_last());
        assert((a + b).last() == b.last());
        lemma_entry_of_concat(a, b.drop_last(), x, y);
    }
}

proof fn lemma_entry_of_single(e: (Seq<char>, Seq<char>, AllowedCollisionType), x: Seq<char>, y: Seq<char>)
    ensures
        entry_of(seq![e], x, y) == if names_pair(e, x, y) {
            Some(e.2)
        } else {
            None::<AllowedCollisionType>
        },
{
    let s1 = seq![e];
    assert(s1.drop_last() =~= Seq::<(Seq<char>, Seq<char>, AllowedCollisionType)>::empty());
    assert(s1.last() == e);
    assert(entry_of(s1.drop_last(), x, y) is None);
}

proof fn lemma_row_cells_entry(
    names: Seq<Seq<char>>,
    rows: Seq<Seq<bool>>,
    ds: Seq<(Seq<char>, AllowedCollisionType)>,
    r: int,
    c: int,
    i: int,
    j: int,
)
    requires
        distinct_names(names),
        0 <= r < c,
        0 <= i < j < names.len(),
        r < names.len(),
    ensures
        entry_of(row_cells(names, rows, ds, r, c), names[i], names[j]) == if r == i && c <= j && cell_stored(
            names,
            rows,
            ds,
            i,
            j,
        ) {
            Some(type_of(rows[i][j]))
        } else {
            None::<AllowedCollisionType>
        },
    decreases names.len() - c,
{
    if c < names.len() {
        let here = if type_of(rows[r][c]) != cell_default(names, ds, r, c) {
            seq![(names[r], names[c], type_of(rows[r][c]))]
        } else {
            Seq::<(Seq<char>, Seq<char>, AllowedCollisionType)>::empty()
        };
        let rest = row_cells(names, rows, ds, r, c + 1);
        assert(row_cells(names, rows, ds, r, c) == here + rest);
        lemma_row_cells_entry(names, rows, ds, r, c + 1, i, j);
        lemma_entry_of_concat(here, rest, names[i], names[j]);
        if type_of(rows[r][c]) != cell_default(names, ds, r, c) {
            lemma_entry_of_single((names[r], names[c], type_of(rows[r][c])), names[i], names[j]);
            if names_pair((names[r], names[c], type_of(rows[r][c])), names[i], names[j]) {
                if names[r] == names[i] && names[c] == names[j] {
                    if r != i {
                        assert(names[r] != names[i]);
                    }
                    if c != j {
                        assert(names[c] != names[j]);
                    }
                } else {
                    if r != j {
                        assert(names[r] != names[j]);
                    }
                    if c != i {
                        assert(names[c] != names[i]);
                    }
                }
            }
        } else {
            assert(here + rest =~= rest);
            if r == i && c == j {
                assert(!cell_stored(names, rows, ds, i, j));
            }
        }
    }
}

proof fn lemma_upper_cells_entry(
    names: Seq<Seq<char>>,
    rows: Seq<Seq<bool>>,
    ds: Seq<(Seq<char>, AllowedCollisionType)>,
    r: int,
    i: int,
    j: int,
)
    requires
        distinct_names(names),
        0 <= r,
        0 <= i < j < names.len(),
    ensures
        entry_of(upper_cells(names, rows, ds, r), names[i], names[j]) == if r <= i && cell_stored(names, rows, ds, i, j) {
            Some(type_of(rows[i][j]))
        } else {
            None::<AllowedCollisionType>
        },
    decreases names.len() - r,
{
    if r < names.len() {
        let row = row_cells(names, rows, ds, r, r + 1);
        let rest = upper_cells(names, rows, ds, r + 1);
        lemma_upper_cells_entry(names, rows, ds, r + 1, i, j);
        lemma_row_cells_entry(names, rows, ds, r, r + 1, i, j);
        lemma_entry_of_concat(row, rest, names[i], names[j]);
    }
}

/// A decoded matrix reads back what its message says of every pair of
/// distinct names: the cell's flag (always for true, never for false), or,
/// for a false cell that neither name's default speaks to, nothing known,
/// which is never. The reading is the same in either order of the pair.
pub proof fn decoded_matrix_reads_back_the_message(msg: AllowedCollisionMatrixMsg, i: int, j: int)
    requires
        spec_decode(msg) is Ok,
        distinct_names(string_views(msg.entry_names@)),
        0 <= i < j < msg.entry_names@.len(),
    ensures
        ({
            let v = spec_decode(msg)->Ok_0;
            let a = msg.entry_names@[i]@;
            let b = msg.entry_names@[j]@;
            let flag = msg.entry_values@[i].enabled@[j];
            &&& allowed_of(v, a, b) == allowed_of(v, b, a)
            &&& (allowed_of(v, a, b) == Some(type_of(flag)) || (allowed_of(v, a, b) is None && !flag))
        }),
{
    let names = string_views(msg.entry_names@);
    let rows = msg_rows(msg.entry_values@);
    let ds = msg_defaults(msg.default_entry_names@, msg.default_entry_values@);
    let v = spec_decode(msg)->Ok_0;
    assert(v.entries == upper_cells(names, rows, ds, 0));
    assert(v.defaults == ds);
    assert(names[i] == msg.entry_names@[i]@);
    assert(names[j] == msg.entry_names@[j]@);
    assert(rows[i] == msg.entry_values@[i].enabled@);
    lemma_upper_cells_entry(names, rows, ds, 0, i, j);
    lemma_entry_of_symmetric(v.entries, names[i], names[j]);
    lemma_defaults_are_flags(msg.default_entry_names@, msg.default_entry_values@, names[i]);
    lemma_defaults_are_flags(msg.default_entry_names@, msg.default_entry_values@, names[j]);
}

proof fn lemma_entry_of_symmetric(es: Seq<(Seq<char>, Seq<char>, AllowedCollisionType)>, x: Seq<char>, y: Seq<char>)
    ensures
        entry_of(es, x, y) == entry_of(es, y, x),
    decreases es.len(),
{
    if es.len() > 0 {
        lemma_entry_of_symmetric(es.drop_last(), x, y);
    }
}

proof fn lemma_defaults_are_flags(dn: Seq<String>, dv: Seq<bool>, name: Seq<char>)
    requires
        dn.len() == dv.len(),
    ensures
        default_of(msg_defaults(dn, dv), name) is Some ==> default_of(msg_defaults(dn, dv), name)->Some_0
            != AllowedCollisionType::Conditional,
    decreases dn.len(),
{
    if dn.len() > 0 {
        let ds = msg_defaults(dn, dv);
        assert(ds.drop_last() =~= msg_defaults(dn.drop_last(), dv.drop_last()));
        lemma_defaults_are_flags(dn.drop_last(), dv.drop_last(), name);
    }
}

} // verus!
