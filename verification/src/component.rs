use vstd::prelude::*;
use vstd::string::StringExecFns;

use crate::text::{lex_lt, str_eq, str_lt};

verus! {

/// The primitive types the sample renderer knows literal placeholders for.
#[derive(Debug, Clone, PartialEq)]
pub enum PrimitiveType {
    Number,
    String,
    Boolean,
}

/// A property key.  An optional property carries a `?` suffix on the key
/// text itself rather than a separate flag.
#[derive(Debug, Clone, PartialEq, Hash, PartialOrd, Ord, Eq)]
pub struct Key(pub String);

impl View for Key {
    type V = Seq<char>;

    open spec fn view(&self) -> Seq<char> {
        self.0@
    }
}

/// The algebraic model of a source type.
#[derive(Debug, PartialEq)]
pub enum Type {
    Primitive(PrimitiveType),
    Object(ObjectType),
    Alias(String),
    Union(Vec<Type>),
    Intersection(Vec<Type>),
    Literal(String),
    Array(Box<Type>),
}

/// A structural record type: an ordered mapping from property key to type.
/// Entries are kept strictly sorted by key, so iteration order is canonical
/// and rendered output is reproducible.
#[derive(Debug, PartialEq)]
pub struct ObjectType {
    inner: Vec<(Key, Type)>,
}

/// Mathematical value of a `Type`.
pub enum TypeSpec {
    Primitive(PrimitiveType),
    Object(Seq<(Seq<char>, TypeSpec)>),
    Alias(Seq<char>),
    Union(Seq<TypeSpec>),
    Intersection(Seq<TypeSpec>),
    Literal(Seq<char>),
    Array(Box<TypeSpec>),
}

pub open spec fn type_view(t: Type) -> TypeSpec
    decreases t,
{
    match t {
        Type::Primitive(p) => TypeSpec::Primitive(p),
        Type::Object(o) => TypeSpec::Object(obj_view(o)),
        Type::Alias(s) => TypeSpec::Alias(s@),
        Type::Union(ts) => TypeSpec::Union(types_view(ts@)),
        Type::Intersection(ts) => TypeSpec::Intersection(types_view(ts@)),
        Type::Literal(s) => TypeSpec::Literal(s@),
        Type::Array(b) => TypeSpec::Array(Box::new(type_view(*b))),
    }
}

/// The entry list of an object type, as a mathematical value.
pub closed spec fn obj_view(o: ObjectType) -> Seq<(Seq<char>, TypeSpec)>
    decreases o,
{
    entries_view(o.inner@)
}

pub open spec fn types_view(ts: Seq<Type>) -> Seq<TypeSpec>
    decreases ts,
{
    if ts.len() == 0 {
        Seq::empty()
    } else {
        seq![type_view(ts[0])] + types_view(ts.subrange(1, ts.len() as int))
    }
}

pub open spec fn entries_view(es: Seq<(Key, Type)>) -> Seq<(Seq<char>, TypeSpec)>
    decreases es,
{
    if es.len() == 0 {
        Seq::empty()
    } else {
        seq![(es[0].0@, type_view(es[0].1))] + entries_view(es.subrange(1, es.len() as int))
    }
}

/// `types_view` maps the list elementwise.
pub proof fn lemma_types_view_all(ts: Seq<Type>)
    ensures
        types_view(ts).len() == ts.len(),
        forall|i: int|
            0 <= i < ts.len() ==> #[trigger] types_view(ts)[i] == type_view(ts[i]),
    decreases ts.len(),
{
    if ts.len() > 0 {
        lemma_types_view_all(ts.subrange(1, ts.len() as int));
        assert forall|i: int| 0 <= i < ts.len() implies #[trigger] types_view(ts)[i] == type_view(
            ts[i],
        ) by {
            if i > 0 {
                assert(types_view(ts)[i] == types_view(ts.subrange(1, ts.len() as int))[i - 1]);
                assert(ts.subrange(1, ts.len() as int)[i - 1] == ts[i]);
            }
        }
    }
}

/// `entries_view` maps the entry list elementwise.
pub proof fn lemma_entries_view_all(es: Seq<(Key, Type)>)
    ensures
        entries_view(es).len() == es.len(),
        forall|i: int|
            0 <= i < es.len() ==> #[trigger] entries_view(es)[i] == (
                es[i].0@,
                type_view(es[i].1),
            ),
    decreases es.len(),
{
    if es.len() > 0 {
        lemma_entries_view_all(es.subrange(1, es.len() as int));
        assert forall|i: int| 0 <= i < es.len() implies #[trigger] entries_view(es)[i] == (
            es[i].0@,
            type_view(es[i].1),
        ) by {
            if i > 0 {
                assert(entries_view(es)[i] == entries_view(es.subrange(1, es.len() as int))[i
                    - 1]);
                assert(es.subrange(1, es.len() as int)[i - 1] == es[i]);
            }
        }
    }
}

impl View for Type {
    type V = TypeSpec;

    open spec fn view(&self) -> TypeSpec {
        type_view(*self)
    }
}

impl View for ObjectType {
    type V = Seq<(Seq<char>, TypeSpec)>;

    open spec fn view(&self) -> Seq<(Seq<char>, TypeSpec)> {
        obj_view(*self)
    }
}

/// Keys strictly increase through the entry list: each key occurs once and
/// iteration order is the canonical sorted order.
pub open spec fn entries_sorted(es: Seq<(Seq<char>, TypeSpec)>) -> bool {
    forall|i: int, j: int| 0 <= i < j < es.len() ==> lex_lt(es[i].0, es[j].0)
}

/// Rendering of a primitive type back to its annotation text.
pub open spec fn primitive_str(p: PrimitiveType) -> Seq<char> {
    match p {
        PrimitiveType::Number => "number"@,
        PrimitiveType::String => "string"@,
        PrimitiveType::Boolean => "boolean"@,
    }
}

/// Placeholder value for a primitive type.
pub open spec fn primitive_sample(p: PrimitiveType) -> Seq<char> {
    match p {
        PrimitiveType::Number => "0"@,
        PrimitiveType::String => "\"\""@,
        PrimitiveType::Boolean => "false"@,
    }
}

/// Annotation text of a type.  Objects render as `{ k: v, ... }` in stored
/// (canonical) entry order; unions and intersections join their branches.
pub open spec fn type_str(t: TypeSpec) -> Seq<char>
    decreases t, 0int,
{
    match t {
        TypeSpec::Primitive(p) => primitive_str(p),
        TypeSpec::Object(es) => object_str(es),
        TypeSpec::Alias(s) => s,
        TypeSpec::Union(ts) => join_str(ts, ts.len() as int, " | "@),
        TypeSpec::Intersection(ts) => join_str(ts, ts.len() as int, " & "@),
        TypeSpec::Literal(s) => s,
        TypeSpec::Array(b) => type_str(*b) + "[]"@,
    }
}

/// The `k: v,` entry run of the first `i` object entries.
pub open spec fn obj_str_to(es: Seq<(Seq<char>, TypeSpec)>, i: int) -> Seq<char>
    decreases es, i,
{
    if i <= 0 || i > es.len() {
        Seq::empty()
    } else {
        obj_str_to(es, i - 1) + es[i - 1].0 + ": "@ + type_str(es[i - 1].1) + ","@
    }
}

/// Rendered object: braces around the entry run.
pub open spec fn object_str(es: Seq<(Seq<char>, TypeSpec)>) -> Seq<char>
    decreases es, es.len() + 1,
{
    "{ "@ + obj_str_to(es, es.len() as int) + " }"@
}

/// The first `i` branch renderings joined by `sep`.
pub open spec fn join_str(ts: Seq<TypeSpec>, i: int, sep: Seq<char>) -> Seq<char>
    decreases ts, i,
{
    if i <= 0 || i > ts.len() {
        Seq::empty()
    } else if i == 1 {
        type_str(ts[0])
    } else {
        join_str(ts, i - 1, sep) + sep + type_str(ts[i - 1])
    }
}

/// Placeholder value of a type: primitives get literal placeholders, an
/// object fills each property, an opaque alias degrades to `null`, a union
/// or intersection uses its first branch, an array wraps one element.
pub open spec fn type_sample(t: TypeSpec) -> Seq<char>
    decreases t, 0int,
{
    match t {
        TypeSpec::Primitive(p) => primitive_sample(p),
        TypeSpec::Object(es) => object_sample(es),
        TypeSpec::Alias(s) => "null"@,
        TypeSpec::Union(ts) => if ts.len() == 0 {
            Seq::empty()
        } else {
            type_sample(ts[0])
        },
        TypeSpec::Intersection(ts) => if ts.len() == 0 {
            Seq::empty()
        } else {
            type_sample(ts[0])
        },
        TypeSpec::Literal(s) => s,
        TypeSpec::Array(b) => "["@ + type_sample(*b) + "]"@,
    }
}

/// The `k: sample,` entry run of the first `i` object entries.
pub open spec fn obj_sample_to(es: Seq<(Seq<char>, TypeSpec)>, i: int) -> Seq<char>
    decreases es, i,
{
    if i <= 0 || i > es.len() {
        Seq::empty()
    } else {
        obj_sample_to(es, i - 1) + es[i - 1].0 + ": "@ + type_sample(es[i - 1].1) + ","@
    }
}

/// Sample value of an object: braces around the filled entries.
pub open spec fn object_sample(es: Seq<(Seq<char>, TypeSpec)>) -> Seq<char>
    decreases es, es.len() + 1,
{
    "{ "@ + obj_sample_to(es, es.len() as int) + " }"@
}

impl PrimitiveType {
    pub fn to_str(&self) -> (r: String)
        ensures
            r@ == primitive_str(*self),
    {
        match self {
            PrimitiveType::Number => "number".to_owned(),
            PrimitiveType::String => "string".to_owned(),
            PrimitiveType::Boolean => "boolean".to_owned(),
        }
    }

    pub fn sample(&self) -> (r: String)
        ensures
            r@ == primitive_sample(*self),
    {
        match self {
            PrimitiveType::Number => "0".to_owned(),
            PrimitiveType::String => "\"\"".to_owned(),
            PrimitiveType::Boolean => "false".to_owned(),
        }
    }
}

/// Where a new key lands in a sorted entry list: existing entries strictly
/// below it, then the entry itself (replacing an equal key), then the rest.
pub open spec fn spec_obj_insert(
    es: Seq<(Seq<char>, TypeSpec)>,
    k: Seq<char>,
    t: TypeSpec,
) -> Seq<(Seq<char>, TypeSpec)>
    decreases es.len(),
{
    if es.len() == 0 {
        seq![(k, t)]
    } else if lex_lt(k, es[0].0) {
        seq![(k, t)] + es
    } else if k == es[0].0 {
        seq![(k, t)] + es.drop_first()
    } else {
        seq![es[0]] + spec_obj_insert(es.drop_first(), k, t)
    }
}

impl ObjectType {
    pub fn new() -> (r: ObjectType)
        ensures
            r@ == Seq::<(Seq<char>, TypeSpec)>::empty(),
    {
        ObjectType { inner: Vec::new() }
    }

    /// Insert a property, keeping entries sorted by key; an existing entry
    /// under the same key is replaced, as in an ordered map.
    #[verifier::loop_isolation(false)]
    pub fn insert(&mut self, key: Key, ty: Type)
        ensures
            final(self)@ == spec_obj_insert(old(self)@, key@, ty@),
    {
        proof {
            lemma_entries_view_all(self.inner@);
        }
        let ghost old_es = self@;
        let mut idx: usize = 0;
        while idx < self.inner.len() && str_lt(self.inner[idx].0.0.as_str(), key.0.as_str())
            invariant
                idx <= self.inner.len(),
                self == old(self),
                forall|j: int| 0 <= j < idx ==> lex_lt(self@[j].0, key@),
            decreases self.inner.len() - idx,
        {
            idx = idx + 1;
        }
        proof {
            lemma_obj_insert_skip(old_es, key@, ty@, idx as int);
        }
        if idx < self.inner.len() && str_eq(self.inner[idx].0.0.as_str(), key.0.as_str()) {
            self.inner.set(idx, (key, ty));
            proof {
                lemma_entries_view_all(self.inner@);
                assert(entries_view(self.inner@) =~= old_es.take(idx as int) + spec_obj_insert(
                    old_es.skip(idx as int),
                    key@,
                    ty@,
                ));
            }
        } else {
            proof {
                if idx < self.inner.len() {
                    crate::text::lemma_lex_lt_trichotomy(old_es[idx as int].0, key@);
                }
            }
            self.inner.insert(idx, (key, ty));
            proof {
                lemma_entries_view_all(self.inner@);
                assert(entries_view(self.inner@) =~= old_es.take(idx as int) + spec_obj_insert(
                    old_es.skip(idx as int),
                    key@,
                    ty@,
                ));
            }
        }
    }

    /// Render as `{ k: v, ... }` in stored entry order.
    #[verifier::loop_isolation(false)]
    pub fn to_str(&self) -> (r: String)
        ensures
            r@ == object_str(self@),
        decreases self,
    {
        proof {
            lemma_entries_view_all(self.inner@);
        }
        let mut r: String = String::from_str("{ ");
        proof {
            assert(r@ =~= "{ "@ + obj_str_to(self@, 0));
        }
        let mut i: usize = 0;
        while i < self.inner.len()
            invariant
                i <= self.inner.len(),
                self@.len() == self.inner.len(),
                r@ == "{ "@ + obj_str_to(self@, i as int),
            decreases self.inner.len() - i,
        {
            r.append(self.inner[i].0.0.as_str());
            r.append(": ");
            let ts = self.inner[i].1.to_str();
            r.append(ts.as_str());
            r.append(",");
            proof {
                assert(r@ =~= "{ "@ + obj_str_to(self@, i as int + 1));
            }
            i = i + 1;
        }
        r.append(" }");
        proof {
            assert(r@ =~= object_str(self@));
        }
        r
    }

    /// Render as `{ k: sample, ... }` in stored entry order.
    #[verifier::loop_isolation(false)]
    pub fn fill_sample(&self) -> (r: String)
        ensures
            r@ == object_sample(self@),
        decreases self,
    {
        proof {
            lemma_entries_view_all(self.inner@);
        }
        let mut r: String = String::from_str("{ ");
        proof {
            assert(r@ =~= "{ "@ + obj_sample_to(self@, 0));
        }
        let mut i: usize = 0;
        while i < self.inner.len()
            invariant
                i <= self.inner.len(),
                self@.len() == self.inner.len(),
                r@ == "{ "@ + obj_sample_to(self@, i as int),
            decreases self.inner.len() - i,
        {
            r.append(self.inner[i].0.0.as_str());
            r.append(": ");
            let ts = self.inner[i].1.sample();
            r.append(ts.as_str());
            r.append(",");
            proof {
                assert(r@ =~= "{ "@ + obj_sample_to(self@, i as int + 1));
            }
            i = i + 1;
        }
        r.append(" }");
        proof {
            assert(r@ =~= object_sample(self@));
        }
        r
    }
}

/// Entries strictly below the insertion key pass through unchanged.
proof fn lemma_obj_insert_skip(es: Seq<(Seq<char>, TypeSpec)>, k: Seq<char>, t: TypeSpec, i: int)
    requires
        0 <= i <= es.len(),
        forall|j: int| 0 <= j < i ==> lex_lt(es[j].0, k),
    ensures
        spec_obj_insert(es, k, t) == es.take(i) + spec_obj_insert(es.skip(i), k, t),
    decreases i,
{
    if i == 0 {
        assert(es.take(0) =~= Seq::empty());
        assert(es.skip(0) =~= es);
        assert(spec_obj_insert(es, k, t) =~= es.take(0) + spec_obj_insert(es.skip(0), k, t));
    } else {
        crate::text::lemma_lex_lt_trichotomy(k, es[0].0);
        lemma_obj_insert_skip(es.drop_first(), k, t, i - 1);
        assert(es.drop_first().take(i - 1) =~= es.take(i).drop_first());
        assert(es.drop_first().skip(i - 1) =~= es.skip(i));
        assert(seq![es[0]] + (es.take(i).drop_first() + spec_obj_insert(es.skip(i), k, t)) =~= es.take(
            i,
        ) + spec_obj_insert(es.skip(i), k, t));
    }
}

/// Inserting into a sorted entry list keeps it sorted.
pub proof fn lemma_obj_insert_sorted(es: Seq<(Seq<char>, TypeSpec)>, k: Seq<char>, t: TypeSpec)
    requires
        entries_sorted(es),
    ensures
        entries_sorted(spec_obj_insert(es, k, t)),
    decreases es.len(),
{
    crate::text::lemma_lex_lt_trichotomy(k, es[0].0);
    if es.len() == 0 {
    } else if lex_lt(k, es[0].0) {
        let r = seq![(k, t)] + es;
        assert forall|i: int, j: int| 0 <= i < j < r.len() implies lex_lt(r[i].0, r[j].0) by {
            if i == 0 {
                if j > 1 {
                    crate::text::lemma_lex_lt_transitive(k, es[0].0, es[j - 1].0);
                }
            }
        }
    } else if k == es[0].0 {
        let r = seq![(k, t)] + es.drop_first();
        assert forall|i: int, j: int| 0 <= i < j < r.len() implies lex_lt(r[i].0, r[j].0) by {
            if i == 0 {
                assert(lex_lt(es[0].0, es[j].0));
            }
        }
    } else {
        assert(entries_sorted(es.drop_first()));
        lemma_obj_insert_sorted(es.drop_first(), k, t);
        let rest = spec_obj_insert(es.drop_first(), k, t);
        let r = seq![es[0]] + rest;
        assert forall|i: int, j: int| 0 <= i < j < r.len() implies lex_lt(r[i].0, r[j].0) by {
            if i == 0 {
                lemma_obj_insert_member(es.drop_first(), k, t, j - 1);
            }
        }
    }
}

/// Every entry of the inserted list is either the new entry or an old one.
proof fn lemma_obj_insert_member(es: Seq<(Seq<char>, TypeSpec)>, k: Seq<char>, t: TypeSpec, j: int)
    requires
        0 <= j < spec_obj_insert(es, k, t).len(),
    ensures
        spec_obj_insert(es, k, t)[j] == (k, t) || exists|m: int|
            0 <= m < es.len() && spec_obj_insert(es, k, t)[j] == es[m],
    decreases es.len(),
{
    if es.len() == 0 {
    } else if lex_lt(k, es[0].0) {
    } else if k == es[0].0 {
    } else {
        if j > 0 {
            lemma_obj_insert_member(es.drop_first(), k, t, j - 1);
        }
    }
}

impl Type {
    /// Render the type back to annotation text.
    pub fn to_str(&self) -> (r: String)
        ensures
            r@ == type_str(self@),
        decreases self,
    {
        match self {
            Type::Primitive(p) => p.to_str(),
            Type::Object(o) => o.to_str(),
            Type::Alias(s) => s.clone(),
            Type::Union(ts) => {
                proof {
                    lemma_types_view_all(ts@);
                }
                Self::join_all(ts, " | ")
            },
            Type::Intersection(ts) => {
                proof {
                    lemma_types_view_all(ts@);
                }
                Self::join_all(ts, " & ")
            },
            Type::Literal(s) => s.clone(),
            Type::Array(b) => {
                let mut r = (**b).to_str();
                r.append("[]");
                r
            },
        }
    }

    /// Render each branch and join with the separator.
    #[verifier::loop_isolation(false)]
    fn join_all(ts: &Vec<Type>, sep: &str) -> (r: String)
        ensures
            r@ == join_str(types_view(ts@), ts@.len() as int, sep@),
        decreases ts,
    {
        proof {
            lemma_types_view_all(ts@);
        }
        let mut r: String = String::new();
        let mut i: usize = 0;
        while i < ts.len()
            invariant
                i <= ts.len(),
                types_view(ts@).len() == ts.len(),
                r@ == join_str(types_view(ts@), i as int, sep@),
            decreases ts.len() - i,
        {
            if i > 0 {
                r.append(sep);
            }
            let piece = ts[i].to_str();
            r.append(piece.as_str());
            proof {
                assert(r@ =~= join_str(types_view(ts@), i as int + 1, sep@));
            }
            i = i + 1;
        }
        r
    }

    /// Render a placeholder value for the type.
    pub fn sample(&self) -> (r: String)
        ensures
            r@ == type_sample(self@),
        decreases self,
    {
        match self {
            Type::Primitive(p) => p.sample(),
            Type::Object(o) => o.fill_sample(),
            Type::Alias(s) => "null".to_owned(),
            Type::Union(ts) => {
                proof {
                    lemma_types_view_all(ts@);
                }
                if ts.len() == 0 {
                    String::new()
                } else {
                    ts[0].sample()
                }
            },
            Type::Intersection(ts) => {
                proof {
                    lemma_types_view_all(ts@);
                }
                if ts.len() == 0 {
                    String::new()
                } else {
                    ts[0].sample()
                }
            },
            Type::Literal(s) => s.clone(),
            Type::Array(b) => {
                let mut r: String = String::from_str("[");
                let inner = (**b).sample();
                r.append(inner.as_str());
                r.append("]");
                r
            },
        }
    }
}

/// Rendering is deterministic and idempotent: what `to_str` and `sample`
/// return is a function of the type's mathematical value alone (their
/// contracts tie the result to `type_str` and `type_sample` of the view),
/// so two calls on types with the same value produce byte-identical text,
/// and entry order inside rendered objects is the stored canonical order
/// every time.
pub proof fn lemma_rendering_deterministic(a: Type, b: Type)
    requires
        a@ == b@,
    ensures
        type_str(a@) == type_str(b@),
        type_sample(a@) == type_sample(b@),
{
}

/// Resolved props of a component: a named alias with its resolved type, or
/// an inline ("expanded") object type.
#[derive(Debug, PartialEq)]
pub enum Props {
    Named(NamedProps),
    Expand(ObjectType),
}

/// A named prop type: the alias name and the type it resolved to.
#[derive(Debug, PartialEq)]
pub struct NamedProps {
    pub name: String,
    inner: Type,
}

/// Mathematical value of `NamedProps`.
pub struct NamedPropsSpec {
    pub name: Seq<char>,
    pub inner: TypeSpec,
}

/// Mathematical value of `Props`.
pub enum PropsSpec {
    Named(NamedPropsSpec),
    Expand(Seq<(Seq<char>, TypeSpec)>),
}

impl View for NamedProps {
    type V = NamedPropsSpec;

    closed spec fn view(&self) -> NamedPropsSpec {
        NamedPropsSpec { name: self.name@, inner: self.inner@ }
    }
}

impl View for Props {
    type V = PropsSpec;

    open spec fn view(&self) -> PropsSpec {
        match self {
            Props::Named(np) => PropsSpec::Named(np@),
            Props::Expand(o) => PropsSpec::Expand(o@),
        }
    }
}

impl NamedProps {
    pub fn new(name: &str, inner: ObjectType) -> (r: NamedProps)
        ensures
            r@ == (NamedPropsSpec { name: name@, inner: TypeSpec::Object(inner@) }),
    {
        NamedProps { name: name.to_owned(), inner: Type::Object(inner) }
    }

    pub fn new_object_type(name: &str, inner: ObjectType) -> (r: NamedProps)
        ensures
            r@ == (NamedPropsSpec { name: name@, inner: TypeSpec::Object(inner@) }),
    {
        NamedProps { name: name.to_owned(), inner: Type::Object(inner) }
    }

    pub fn new_intersection_type(name: &str, inner: Vec<Type>) -> (r: NamedProps)
        ensures
            r@ == (NamedPropsSpec {
                name: name@,
                inner: TypeSpec::Intersection(types_view(inner@)),
            }),
    {
        NamedProps { name: name.to_owned(), inner: Type::Intersection(inner) }
    }

    /// The resolved type rendered back to annotation text.
    pub fn expand_str(&self) -> (r: String)
        ensures
            r@ == type_str(self@.inner),
    {
        self.inner.to_str()
    }
}

/// What the annotation renderer produces for given props: the alias name
/// where one was matched, else the inline object type.
pub open spec fn spec_props_str(p: PropsSpec) -> Seq<char> {
    match p {
        PropsSpec::Named(np) => np.name,
        PropsSpec::Expand(es) => object_str(es),
    }
}

/// The structural rendering of given props, aliases expanded.
pub open spec fn spec_expand_str(p: PropsSpec) -> Seq<char> {
    match p {
        PropsSpec::Named(np) => type_str(np.inner),
        PropsSpec::Expand(es) => object_str(es),
    }
}

/// The sample-value rendering of given props.
pub open spec fn spec_fill_sample(p: PropsSpec) -> Seq<char> {
    match p {
        PropsSpec::Named(np) => type_sample(np.inner),
        PropsSpec::Expand(es) => object_sample(es),
    }
}

/// The parsed result: an exported component name and its resolved props.
#[derive(Debug, PartialEq)]
pub struct Component {
    pub name: String,
    props: Props,
}

/// Mathematical value of a `Component`.
pub struct ComponentSpec {
    pub name: Seq<char>,
    pub props: PropsSpec,
}

impl View for Component {
    type V = ComponentSpec;

    closed spec fn view(&self) -> ComponentSpec {
        ComponentSpec { name: self.name@, props: self.props@ }
    }
}

impl Component {
    pub fn new(name: &str, props: Props) -> (r: Component)
        ensures
            r@ == (ComponentSpec { name: name@, props: props@ }),
    {
        Component { name: name.to_owned(), props }
    }

    /// The component's exported name.
    pub fn name_str(&self) -> (r: &str)
        ensures
            r@ == self@.name,
    {
        self.name.as_str()
    }

    /// The alias name of the props, where an alias was matched.
    pub fn props_name(&self) -> (r: Option<&str>)
        ensures
            self@.props matches PropsSpec::Named(np) ==> r matches Some(s) && s@ == np.name,
            self@.props matches PropsSpec::Expand(es) ==> r is None,
    {
        match &self.props {
            Props::Named(np) => Some(np.name.as_str()),
            Props::Expand(_) => None,
        }
    }

    /// The annotation text of the props: the alias name where one was
    /// matched, else the inline object rendering.
    pub fn props_str(&self) -> (r: String)
        ensures
            r@ == spec_props_str(self@.props),
    {
        match &self.props {
            Props::Named(np) => np.name.clone(),
            Props::Expand(o) => o.to_str(),
        }
    }

    /// The structural annotation text of the props, aliases expanded.
    pub fn expand_str(&self) -> (r: String)
        ensures
            r@ == spec_expand_str(self@.props),
    {
        match &self.props {
            Props::Named(np) => np.expand_str(),
            Props::Expand(o) => o.to_str(),
        }
    }

    /// The sample-value text of the props.
    pub fn fill_sample(&self) -> (r: String)
        ensures
            r@ == spec_fill_sample(self@.props),
    {
        match &self.props {
            Props::Named(np) => np.inner.sample(),
            Props::Expand(o) => o.fill_sample(),
        }
    }
}

/// The raw source text of one file, as handed in by the caller.
pub struct TSXContent(pub String);

impl View for TSXContent {
    type V = Seq<char>;

    open spec fn view(&self) -> Seq<char> {
        self.0@
    }
}

} // verus!
