//! The portable value model: scalar values carried through query parameters,
//! selection results (projected rows), and write arguments.
//!
//! Every type here has a mathematical view: values map to the pure `PvView`
//! datatype, rows and write arguments map to sequences of `(field, PvView)`
//! pairs. Contracts throughout the crate speak of those views.
use vstd::prelude::*;

verus! {

/// Coarse type tag carried by placeholders and generator calls so that a
/// downstream driver can decode parameters.
#[derive(Clone, Copy, Debug, PartialEq, Eq, Structural)]
pub enum PrismaValueType {
    Any,
    TextType,
    IntType,
    BooleanType,
    DateType,
}

/// A dialect-independent parameter value.
///
/// `Placeholder` stands for a late-bound named parameter; `GeneratorCall` is an
/// opaque call to a named value generator that the driver resolves at
/// execution time.
#[derive(Debug)]
pub enum PrismaValue {
    Null,
    Boolean(bool),
    Int(i64),
    Text(String),
    Uuid(String),
    DateTime(i64),
    List(Vec<PrismaValue>),
    Placeholder { name: String, value_type: PrismaValueType },
    GeneratorCall { name: String, args: Vec<PrismaValue>, return_type: PrismaValueType },
}

/// The mathematical model of a `PrismaValue`.
pub enum PvView {
    Null,
    Boolean(bool),
    Int(int),
    Text(Seq<char>),
    Uuid(Seq<char>),
    DateTime(int),
    List(Seq<PvView>),
    Placeholder { name: Seq<char>, value_type: PrismaValueType },
    GeneratorCall { name: Seq<char>, args: Seq<PvView>, return_type: PrismaValueType },
}

/// The model of a value.
pub open spec fn pv_view(v: PrismaValue) -> PvView
    decreases v,
{
    match v {
        PrismaValue::Null => PvView::Null,
        PrismaValue::Boolean(x) => PvView::Boolean(x),
        PrismaValue::Int(x) => PvView::Int(x as int),
        PrismaValue::Text(x) => PvView::Text(x@),
        PrismaValue::Uuid(x) => PvView::Uuid(x@),
        PrismaValue::DateTime(x) => PvView::DateTime(x as int),
        PrismaValue::List(x) => PvView::List(pvs_view(x@)),
        PrismaValue::Placeholder { name, value_type } => PvView::Placeholder {
            name: name@,
            value_type,
        },
        PrismaValue::GeneratorCall { name, args, return_type } => PvView::GeneratorCall {
            name: name@,
            args: pvs_view(args@),
            return_type,
        },
    }
}

/// The model of a value list, element by element.
pub open spec fn pvs_view(s: Seq<PrismaValue>) -> Seq<PvView>
    decreases s,
{
    if s.len() == 0 {
        Seq::empty()
    } else {
        seq![pv_view(s[0])] + pvs_view(s.drop_first())
    }
}

/// `pvs_view` maps the sequence element by element.
pub proof fn lemma_pvs_view(s: Seq<PrismaValue>)
    ensures
        pvs_view(s).len() == s.len(),
        forall|i: int| 0 <= i < s.len() ==> #[trigger] pvs_view(s)[i] == pv_view(s[i]),
    decreases s.len(),
{
    if s.len() > 0 {
        lemma_pvs_view(s.drop_first());
        assert forall|i: int| 0 <= i < s.len() implies #[trigger] pvs_view(s)[i] == pv_view(
            s[i],
        ) by {
            if i > 0 {
                assert(pvs_view(s)[i] == pvs_view(s.drop_first())[i - 1]);
                assert(s.drop_first()[i - 1] == s[i]);
            }
        }
    }
}

impl View for PrismaValue {
    type V = PvView;

    open spec fn view(&self) -> PvView {
        pv_view(*self)
    }
}

impl PrismaValue {
    /// Deep equality test: decides equality of the models.
    pub fn eq_value(&self, other: &PrismaValue) -> (r: bool)
        ensures
            r == (self@ == other@),
        decreases *self, 1int,
    {
        match (self, other) {
            (PrismaValue::Null, PrismaValue::Null) => true,
            (PrismaValue::Boolean(x), PrismaValue::Boolean(y)) => *x == *y,
            (PrismaValue::Int(x), PrismaValue::Int(y)) => *x == *y,
            (PrismaValue::Text(x), PrismaValue::Text(y)) => *x == *y,
            (PrismaValue::Uuid(x), PrismaValue::Uuid(y)) => *x == *y,
            (PrismaValue::DateTime(x), PrismaValue::DateTime(y)) => *x == *y,
            (PrismaValue::List(x), PrismaValue::List(y)) => Self::eq_value_list(self, x, y),
            (
                PrismaValue::Placeholder { name: n1, value_type: t1 },
                PrismaValue::Placeholder { name: n2, value_type: t2 },
            ) => *n1 == *n2 && *t1 == *t2,
            (
                PrismaValue::GeneratorCall { name: n1, args: a1, return_type: t1 },
                PrismaValue::GeneratorCall { name: n2, args: a2, return_type: t2 },
            ) => *n1 == *n2 && *t1 == *t2 && Self::eq_value_list(self, a1, a2),
            _ => false,
        }
    }

    /// Element-wise deep equality over two value lists; `owner` is the value
    /// whose field `x` is, so termination can follow the structure.
    fn eq_value_list(owner: &PrismaValue, x: &Vec<PrismaValue>, y: &Vec<PrismaValue>) -> (r: bool)
        requires
            (owner matches PrismaValue::List(v) && v == x) || (owner
                matches PrismaValue::GeneratorCall { args, .. } && args == x),
        ensures
            r == (pvs_view(x@) == pvs_view(y@)),
        decreases *owner, 0int,
    {
        let ghost xs = pvs_view(x@);
        let ghost ys = pvs_view(y@);
        proof {
            lemma_pvs_view(x@);
            lemma_pvs_view(y@);
        }
        if x.len() != y.len() {
            proof {
                assert(xs.len() != ys.len());
            }
            return false;
        }
        let mut i: usize = 0;
        while i < x.len()
            invariant
                i <= x@.len(),
                x@.len() == y@.len(),
                xs == pvs_view(x@),
                ys == pvs_view(y@),
                xs.len() == x@.len(),
                ys.len() == y@.len(),
                forall|j: int| 0 <= j < x@.len() ==> #[trigger] xs[j] == pv_view(x@[j]),
                forall|j: int| 0 <= j < y@.len() ==> #[trigger] ys[j] == pv_view(y@[j]),
                (owner matches PrismaValue::List(v) && v == x) || (owner
                    matches PrismaValue::GeneratorCall { args, .. } && args == x),
                forall|j: int| 0 <= j < i ==> xs[j] == ys[j],
            decreases x@.len() - i,
        {
            proof {
                assert(decreases_to!(*owner => x@[i as int]));
            }
            if !x[i].eq_value(&y[i]) {
                proof {
                    assert(xs[i as int] != ys[i as int]);
                }
                return false;
            }
            i = i + 1;
        }
        proof {
            assert(xs =~= ys);
        }
        true
    }

    /// The contained text, for `Text` values.
    pub fn as_string(&self) -> (r: Option<&String>)
        ensures
            match r {
                Some(s) => *self matches PrismaValue::Text(t) && t == s,
                None => !(*self matches PrismaValue::Text(_)),
            },
    {
        match self {
            PrismaValue::Text(s) => Some(s),
            _ => None,
        }
    }

    /// Whether this value is a late-bound placeholder.
    pub fn is_placeholder(&self) -> (r: bool)
        ensures
            r == (*self matches PrismaValue::Placeholder { .. }),
    {
        matches!(self, PrismaValue::Placeholder { .. })
    }
}

impl Clone for PrismaValue {
    /// Deep copy; the copy has the same model as the original.
    fn clone(&self) -> (r: Self)
        ensures
            r@ == self@,
        decreases *self, 1int,
    {
        match self {
            PrismaValue::Null => PrismaValue::Null,
            PrismaValue::Boolean(x) => PrismaValue::Boolean(*x),
            PrismaValue::Int(x) => PrismaValue::Int(*x),
            PrismaValue::Text(x) => PrismaValue::Text(x.clone()),
            PrismaValue::Uuid(x) => PrismaValue::Uuid(x.clone()),
            PrismaValue::DateTime(x) => PrismaValue::DateTime(*x),
            PrismaValue::List(x) => {
                let copy = PrismaValue::clone_list(self, x);
                PrismaValue::List(copy)
            },
            PrismaValue::Placeholder { name, value_type } => PrismaValue::Placeholder {
                name: name.clone(),
                value_type: *value_type,
            },
            PrismaValue::GeneratorCall { name, args, return_type } => {
                let copy = PrismaValue::clone_list(self, args);
                PrismaValue::GeneratorCall {
                    name: name.clone(),
                    args: copy,
                    return_type: *return_type,
                }
            },
        }
    }
}

impl PrismaValue {
    /// Deep copy of a value list owned by `owner`.
    fn clone_list(owner: &PrismaValue, x: &Vec<PrismaValue>) -> (r: Vec<PrismaValue>)
        requires
            (owner matches PrismaValue::List(v) && v == x) || (owner
                matches PrismaValue::GeneratorCall { args, .. } && args == x),
        ensures
            pvs_view(r@) == pvs_view(x@),
        decreases *owner, 0int,
    {
        let mut out: Vec<PrismaValue> = Vec::new();
        let mut i: usize = 0;
        while i < x.len()
            invariant
                i <= x@.len(),
                out@.len() == i,
                (owner matches PrismaValue::List(v) && v == x) || (owner
                    matches PrismaValue::GeneratorCall { args, .. } && args == x),
                forall|j: int| 0 <= j < i ==> #[trigger] pv_view(out@[j]) == pv_view(x@[j]),
            decreases x@.len() - i,
        {
            proof {
                assert(decreases_to!(*owner => x@[i as int]));
            }
            out.push(x[i].clone());
            i = i + 1;
        }
        proof {
            lemma_pvs_view(out@);
            lemma_pvs_view(x@);
            assert(pvs_view(out@) =~= pvs_view(x@));
        }
        out
    }
}

/// A materialized projection of one row: ordered `(field, value)` pairs.
#[derive(Debug)]
pub struct SelectionResult {
    pub pairs: Vec<(usize, PrismaValue)>,
}

/// The model of a `(field, value)` pair list.
pub open spec fn pairs_view(s: Seq<(usize, PrismaValue)>) -> Seq<(usize, PvView)> {
    Seq::new(s.len(), |i: int| (s[i].0, pv_view(s[i].1)))
}

impl View for SelectionResult {
    type V = Seq<(usize, PvView)>;

    open spec fn view(&self) -> Seq<(usize, PvView)> {
        pairs_view(self.pairs@)
    }
}

/// First value bound to field `f` in the modelled row, if any.
pub open spec fn row_lookup(row: Seq<(usize, PvView)>, f: usize) -> Option<PvView>
    decreases row.len(),
{
    if row.len() == 0 {
        None
    } else if row[0].0 == f {
        Some(row[0].1)
    } else {
        row_lookup(row.drop_first(), f)
    }
}

impl SelectionResult {
    /// First value bound to field `f`, if any.
    pub fn lookup(&self, f: usize) -> (r: Option<&PrismaValue>)
        ensures
            match r {
                Some(v) => row_lookup(self@, f) == Some(v@),
                None => row_lookup(self@, f) is None,
            },
    {
        let mut i: usize = 0;
        proof {
            assert(self@.skip(0) =~= self@);
        }
        while i < self.pairs.len()
            invariant
                i <= self.pairs@.len(),
                self@.len() == self.pairs@.len(),
                row_lookup(self@, f) == row_lookup(self@.skip(i as int), f),
            decreases self.pairs@.len() - i,
        {
            proof {
                assert(self@.skip(i as int)[0] == self@[i as int]);
                assert(self@.skip(i as int).drop_first() =~= self@.skip(i + 1));
            }
            if self.pairs[i].0 == f {
                return Some(&self.pairs[i].1);
            }
            i = i + 1;
        }
        proof {
            assert(self@.skip(i as int).len() == 0);
        }
        None
    }

    /// Whether every value in the row is a placeholder.
    pub fn all_placeholders(&self) -> (r: bool)
        ensures
            r == forall|i: int|
                0 <= i < self@.len() ==> #[trigger] self@[i].1 matches PvView::Placeholder { .. },
    {
        let mut i: usize = 0;
        while i < self.pairs.len()
            invariant
                i <= self.pairs@.len(),
                self@.len() == self.pairs@.len(),
                forall|j: int|
                    0 <= j < i ==> #[trigger] self@[j].1 matches PvView::Placeholder { .. },
            decreases self.pairs@.len() - i,
        {
            if !self.pairs[i].1.is_placeholder() {
                proof {
                    assert(!(self@[i as int].1 matches PvView::Placeholder { .. }));
                }
                return false;
            }
            i = i + 1;
        }
        true
    }

    /// The values of the row in order, detached from their fields.
    pub fn db_values(&self) -> (r: Vec<PrismaValue>)
        ensures
            r@.len() == self@.len(),
            forall|i: int| 0 <= i < r@.len() ==> #[trigger] r@[i]@ == self@[i].1,
    {
        let mut out: Vec<PrismaValue> = Vec::new();
        let mut i: usize = 0;
        while i < self.pairs.len()
            invariant
                i <= self.pairs@.len(),
                self@.len() == self.pairs@.len(),
                out@.len() == i,
                forall|j: int| 0 <= j < i ==> #[trigger] out@[j]@ == self@[j].1,
            decreases self.pairs@.len() - i,
        {
            out.push(self.pairs[i].1.clone());
            i = i + 1;
        }
        out
    }
}

impl Clone for SelectionResult {
    /// Deep copy; the copy has the same model as the original.
    fn clone(&self) -> (r: Self)
        ensures
            r@ == self@,
    {
        let pairs = clone_pairs(&self.pairs);
        let r = SelectionResult { pairs };
        proof {
            assert(r@ =~= self@);
        }
        r
    }
}

/// Write arguments of a pending write operation: ordered `(field, value)`
/// pairs, later fields overriding earlier ones on injection.
#[derive(Debug)]
pub struct WriteArgs {
    pub args: Vec<(usize, PrismaValue)>,
}

impl View for WriteArgs {
    type V = Seq<(usize, PvView)>;

    open spec fn view(&self) -> Seq<(usize, PvView)> {
        pairs_view(self.args@)
    }
}

impl WriteArgs {
    /// First value set for field `f`, if any.
    pub fn lookup(&self, f: usize) -> (r: Option<&PrismaValue>)
        ensures
            match r {
                Some(v) => row_lookup(self@, f) == Some(v@),
                None => row_lookup(self@, f) is None,
            },
    {
        let mut i: usize = 0;
        proof {
            assert(self@.skip(0) =~= self@);
        }
        while i < self.args.len()
            invariant
                i <= self.args@.len(),
                self@.len() == self.args@.len(),
                row_lookup(self@, f) == row_lookup(self@.skip(i as int), f),
            decreases self.args@.len() - i,
        {
            proof {
                assert(self@.skip(i as int)[0] == self@[i as int]);
                assert(self@.skip(i as int).drop_first() =~= self@.skip(i + 1));
            }
            if self.args[i].0 == f {
                return Some(&self.args[i].1);
            }
            i = i + 1;
        }
        proof {
            assert(self@.skip(i as int).len() == 0);
        }
        None
    }
}

impl Clone for WriteArgs {
    /// Deep copy; the copy has the same model as the original.
    fn clone(&self) -> (r: Self)
        ensures
            r@ == self@,
    {
        let args = clone_pairs(&self.args);
        let r = WriteArgs { args };
        proof {
            assert(r@ =~= self@);
        }
        r
    }
}

/// Deep copy of a value list; the copy has the same model.
pub fn clone_values(x: &Vec<PrismaValue>) -> (r: Vec<PrismaValue>)
    ensures
        pvs_view(r@) == pvs_view(x@),
{
    let mut out: Vec<PrismaValue> = Vec::new();
    let mut i: usize = 0;
    while i < x.len()
        invariant
            i <= x@.len(),
            out@.len() == i,
            forall|j: int| 0 <= j < i ==> #[trigger] pv_view(out@[j]) == pv_view(x@[j]),
        decreases x@.len() - i,
    {
        out.push(x[i].clone());
        i = i + 1;
    }
    proof {
        lemma_pvs_view(out@);
        lemma_pvs_view(x@);
        assert(pvs_view(out@) =~= pvs_view(x@));
    }
    out
}

/// Deep copy of a `(field, value)` pair list; the copy has the same model.
pub fn clone_pairs(pairs: &Vec<(usize, PrismaValue)>) -> (r: Vec<(usize, PrismaValue)>)
    ensures
        pairs_view(r@) == pairs_view(pairs@),
{
    let mut out: Vec<(usize, PrismaValue)> = Vec::new();
    let mut i: usize = 0;
    while i < pairs.len()
        invariant
            i <= pairs@.len(),
            out@.len() == i,
            forall|j: int|
                0 <= j < i ==> #[trigger] out@[j].0 == pairs@[j].0 && out@[j].1@ == pairs@[j].1@,
        decreases pairs@.len() - i,
    {
        let f = pairs[i].0;
        let v = pairs[i].1.clone();
        out.push((f, v));
        i = i + 1;
    }
    proof {
        assert(pairs_view(out@) =~= pairs_view(pairs@));
    }
    out
}

/// The decimal digits of a number, most significant first.
pub open spec fn spec_decimal(n: nat) -> Seq<char>
    decreases n,
{
    if n < 10 {
        seq![spec_digit_char(n)]
    } else {
        spec_decimal(n / 10) + seq![spec_digit_char(n % 10)]
    }
}

/// The character of one decimal digit.
pub open spec fn spec_digit_char(d: nat) -> char {
    if d == 0 {
        '0'
    } else if d == 1 {
        '1'
    } else if d == 2 {
        '2'
    } else if d == 3 {
        '3'
    } else if d == 4 {
        '4'
    } else if d == 5 {
        '5'
    } else if d == 6 {
        '6'
    } else if d == 7 {
        '7'
    } else if d == 8 {
        '8'
    } else {
        '9'
    }
}

/// One decimal digit as literal text.
fn digit_str(d: u64) -> (r: &'static str)
    requires
        d < 10,
    ensures
        r@ == seq![spec_digit_char(d as nat)],
{
    let r = match d {
        0 => "0",
        1 => "1",
        2 => "2",
        3 => "3",
        4 => "4",
        5 => "5",
        6 => "6",
        7 => "7",
        8 => "8",
        _ => "9",
    };
    proof {
        reveal_strlit("0");
        reveal_strlit("1");
        reveal_strlit("2");
        reveal_strlit("3");
        reveal_strlit("4");
        reveal_strlit("5");
        reveal_strlit("6");
        reveal_strlit("7");
        reveal_strlit("8");
        reveal_strlit("9");
    }
    r
}

/// Renders a number in decimal.
pub fn u64_to_decimal(n: u64) -> (r: String)
    ensures
        r@ == spec_decimal(n as nat),
    decreases n,
{
    if n < 10 {
        let mut s = String::new();
        s.append(digit_str(n));
        proof {
            assert(s@ =~= spec_decimal(n as nat));
        }
        s
    } else {
        let mut s = u64_to_decimal(n / 10);
        s.append(digit_str(n % 10));
        proof {
            assert(s@ =~= spec_decimal(n as nat));
        }
        s
    }
}

/// Renders a number in decimal.
pub fn usize_to_decimal(n: usize) -> (r: String)
    ensures
        r@ == spec_decimal(n as nat),
{
    u64_to_decimal(n as u64)
}

/// The decimal rendering of a signed number.
pub open spec fn spec_display_int(n: int) -> Seq<char> {
    if n >= 0 {
        spec_decimal(n as nat)
    } else {
        seq!['-'] + spec_decimal((-n) as nat)
    }
}

/// Renders a signed number in decimal.
pub fn i64_to_decimal(n: i64) -> (r: String)
    ensures
        r@ == spec_display_int(n as int),
{
    if n >= 0 {
        u64_to_decimal(n as u64)
    } else {
        let magnitude: u64 = ((-(n + 1)) as u64) + 1;
        proof {
            assert(magnitude == -(n as int));
        }
        let mut s = String::from_str("-");
        s.append(u64_to_decimal(magnitude).as_str());
        proof {
            reveal_strlit("-");
            assert(s@ =~= spec_display_int(n as int));
        }
        s
    }
}

/// The unambiguous text rendering of a value, where one exists: text and
/// uuid content as such, integers in decimal, booleans and null by name.
pub open spec fn spec_display_value(v: PvView) -> Option<Seq<char>> {
    match v {
        PvView::Text(s) => Some(s),
        PvView::Uuid(s) => Some(s),
        PvView::Int(n) => Some(spec_display_int(n)),
        PvView::Boolean(b) => Some(
            if b {
                "true"@
            } else {
                "false"@
            },
        ),
        PvView::Null => Some("null"@),
        _ => None,
    }
}

/// Renders a value as text, where an unambiguous rendering exists.
pub fn display_value(v: &PrismaValue) -> (r: Option<String>)
    ensures
        match r {
            Some(text) => spec_display_value(v@) == Some(text@),
            None => spec_display_value(v@) is None,
        },
{
    match v {
        PrismaValue::Text(s) => Some(String::from_str(s.as_str())),
        PrismaValue::Uuid(s) => Some(String::from_str(s.as_str())),
        PrismaValue::Int(n) => Some(i64_to_decimal(*n)),
        PrismaValue::Boolean(b) => {
            if *b {
                Some(String::from_str("true"))
            } else {
                Some(String::from_str("false"))
            }
        },
        PrismaValue::Null => Some(String::from_str("null")),
        _ => None,
    }
}

} // verus!
