//! The grammar of field and method descriptors.
//!
//! Positions count characters from the start of the descriptor.

use crate::error::Error;
use vstd::prelude::*;

verus! {

/// The type of a field, a parameter or a result.
#[derive(Debug, PartialEq, Eq)]
pub enum FieldType {
    Byte,
    Char,
    Double,
    Float,
    Int,
    Long,
    Object(String),
    Short,
    Boolean,
    Array(Box<FieldType>),
    Void,
}

/// The content of a [`FieldType`].
pub enum TypeView {
    Byte,
    Char,
    Double,
    Float,
    Int,
    Long,
    Object(Seq<char>),
    Short,
    Boolean,
    Array(Box<TypeView>),
    Void,
}

/// The content of the type `t`.
pub open spec fn type_view(t: FieldType) -> TypeView
    decreases t,
{
    match t {
        FieldType::Byte => TypeView::Byte,
        FieldType::Char => TypeView::Char,
        FieldType::Double => TypeView::Double,
        FieldType::Float => TypeView::Float,
        FieldType::Int => TypeView::Int,
        FieldType::Long => TypeView::Long,
        FieldType::Object(name) => TypeView::Object(name@),
        FieldType::Short => TypeView::Short,
        FieldType::Boolean => TypeView::Boolean,
        FieldType::Array(inner) => TypeView::Array(Box::new(type_view(*inner))),
        FieldType::Void => TypeView::Void,
    }
}

impl DeepView for FieldType {
    type V = TypeView;

    open spec fn deep_view(&self) -> TypeView {
        type_view(*self)
    }
}

/// The parameter types and the result type of a method.
#[derive(Debug, PartialEq, Eq)]
pub struct MethodDescriptor {
    pub parameter_types: Vec<FieldType>,
    pub return_type: FieldType,
}

/// The content of a [`MethodDescriptor`].
pub struct MethodView {
    pub parameter_types: Seq<TypeView>,
    pub return_type: TypeView,
}

impl DeepView for MethodDescriptor {
    type V = MethodView;

    open spec fn deep_view(&self) -> MethodView {
        MethodView {
            parameter_types: self.parameter_types.deep_view(),
            return_type: self.return_type.deep_view(),
        }
    }
}

/// Whether `e` reports that the descriptor `s` breaks the grammar at
/// character `pos`.
pub open spec fn is_invalid_at(e: Error, s: Seq<char>, pos: int) -> bool {
    e matches Error::InvalidDescriptor { descriptor, position } && descriptor@ == s && position
        == pos
}

/// The position of the first `;` at or behind `from`, or the length of `s`
/// where there is none.
pub open spec fn find_semicolon(s: Seq<char>, from: int) -> int
    decreases s.len() - from,
{
    if from < 0 || from >= s.len() {
        s.len() as int
    } else if s[from] == ';' {
        from
    } else {
        find_semicolon(s, from + 1)
    }
}

/// The type whose descriptor is the single character `c`, if there is one.
pub open spec fn base_type(c: char) -> Option<TypeView> {
    if c == 'B' {
        Some(TypeView::Byte)
    } else if c == 'C' {
        Some(TypeView::Char)
    } else if c == 'D' {
        Some(TypeView::Double)
    } else if c == 'F' {
        Some(TypeView::Float)
    } else if c == 'I' {
        Some(TypeView::Int)
    } else if c == 'J' {
        Some(TypeView::Long)
    } else if c == 'S' {
        Some(TypeView::Short)
    } else if c == 'Z' {
        Some(TypeView::Boolean)
    } else if c == 'V' {
        Some(TypeView::Void)
    } else {
        None
    }
}

/// The type that the characters of `s` from `pos` on denote, with the
/// position behind it, or the position at which they break the grammar: the
/// length of `s` where characters are missing. `V` is read as `Void` here;
/// where `Void` may stand is for the caller to say, except that no array has
/// it as its element.
pub open spec fn spec_parse_type(s: Seq<char>, pos: int) -> Result<(TypeView, int), int>
    decreases s.len() - pos,
{
    if pos < 0 || pos >= s.len() {
        Err(pos)
    } else if s[pos] == 'L' {
        let end = find_semicolon(s, pos + 1);
        if end < s.len() {
            Ok((TypeView::Object(s.subrange(pos + 1, end)), end + 1))
        } else {
            Err(s.len() as int)
        }
    } else if s[pos] == '[' {
        match spec_parse_type(s, pos + 1) {
            Err(e) => Err(e),
            Ok((element, end)) => if element is Void {
                Err(pos + 1)
            } else {
                Ok((TypeView::Array(Box::new(element)), end))
            },
        }
    } else {
        match base_type(s[pos]) {
            Some(t) => Ok((t, pos + 1)),
            None => Err(pos),
        }
    }
}

/// The parameter types that the characters of `s` from `pos` on denote, up
/// to the closing parenthesis, with the position of that parenthesis, or the
/// position at which they break the grammar.
pub open spec fn spec_parse_parameters(s: Seq<char>, pos: int) -> Result<
    (Seq<TypeView>, int),
    int,
>
    decreases s.len() - pos,
    via spec_parse_parameters_decreases
{
    if pos < 0 || pos >= s.len() {
        Err(pos)
    } else if s[pos] == ')' {
        Ok((Seq::empty(), pos))
    } else {
        match spec_parse_type(s, pos) {
            Err(e) => Err(e),
            Ok((t, next)) => if t is Void {
                Err(pos)
            } else {
                match spec_parse_parameters(s, next) {
                    Err(e) => Err(e),
                    Ok((rest, close)) => Ok((seq![t] + rest, close)),
                }
            },
        }
    }
}

#[via_fn]
proof fn spec_parse_parameters_decreases(s: Seq<char>, pos: int) {
    if 0 <= pos < s.len() {
        lemma_type_round_trip(s, pos);
    }
}

/// The type that `s` denotes as the descriptor of a field, or the position
/// at which `s` breaks the grammar.
pub open spec fn spec_parse_field_type(s: Seq<char>) -> Result<TypeView, int> {
    match spec_parse_type(s, 0) {
        Err(e) => Err(e),
        Ok((t, end)) => if t is Void {
            Err(0)
        } else if end != s.len() {
            Err(end)
        } else {
            Ok(t)
        },
    }
}

/// The parameter and result types that `s` denotes as the descriptor of a
/// method, or the position at which `s` breaks the grammar.
pub open spec fn spec_parse_method(s: Seq<char>) -> Result<MethodView, int> {
    if s.len() == 0 || s[0] != '(' {
        Err(0)
    } else {
        match spec_parse_parameters(s, 1) {
            Err(e) => Err(e),
            Ok((parameter_types, close)) => match spec_parse_type(s, close + 1) {
                Err(e) => Err(e),
                Ok((return_type, end)) => if end != s.len() {
                    Err(end)
                } else {
                    Ok(MethodView { parameter_types, return_type })
                },
            },
        }
    }
}

/// The descriptor of a type.
pub open spec fn spec_type_text(t: TypeView) -> Seq<char>
    decreases t,
{
    match t {
        TypeView::Byte => seq!['B'],
        TypeView::Char => seq!['C'],
        TypeView::Double => seq!['D'],
        TypeView::Float => seq!['F'],
        TypeView::Int => seq!['I'],
        TypeView::Long => seq!['J'],
        TypeView::Object(name) => seq!['L'] + name + seq![';'],
        TypeView::Short => seq!['S'],
        TypeView::Boolean => seq!['Z'],
        TypeView::Array(element) => seq!['['] + spec_type_text(*element),
        TypeView::Void => seq!['V'],
    }
}

/// The descriptors of a run of types, one after the other.
pub open spec fn spec_types_text(types: Seq<TypeView>) -> Seq<char>
    decreases types.len(),
{
    if types.len() == 0 {
        Seq::empty()
    } else {
        spec_type_text(types.first()) + spec_types_text(types.drop_first())
    }
}

/// The descriptor of a method.
pub open spec fn spec_method_text(m: MethodView) -> Seq<char> {
    seq!['('] + spec_types_text(m.parameter_types) + seq![')'] + spec_type_text(m.return_type)
}

/// Where the search for `;` ends, and what stands there.
pub proof fn lemma_find_semicolon(s: Seq<char>, from: int)
    requires
        0 <= from <= s.len(),
    ensures
        from <= find_semicolon(s, from) <= s.len(),
        find_semicolon(s, from) < s.len() ==> s[find_semicolon(s, from)] == ';',
        forall|i: int| from <= i < find_semicolon(s, from) ==> s[i] != ';',
    decreases s.len() - from,
{
    if from < s.len() && s[from] != ';' {
        lemma_find_semicolon(s, from + 1);
    }
}

/// A parsed type takes at least one character, and its descriptor is the
/// text it was parsed from.
pub proof fn lemma_type_round_trip(s: Seq<char>, pos: int)
    requires
        0 <= pos <= s.len(),
    ensures
        match spec_parse_type(s, pos) {
            Ok((t, end)) => pos < end <= s.len() && spec_type_text(t) == s.subrange(pos, end),
            Err(_) => true,
        },
    decreases s.len() - pos,
{
    if pos < s.len() {
        if s[pos] == 'L' {
            lemma_find_semicolon(s, pos + 1);
            let end = find_semicolon(s, pos + 1);
            if end < s.len() {
                assert(seq!['L'] + s.subrange(pos + 1, end) + seq![';'] =~= s.subrange(
                    pos,
                    end + 1,
                ));
            }
        } else if s[pos] == '[' {
            lemma_type_round_trip(s, pos + 1);
            if let Ok((element, end)) = spec_parse_type(s, pos + 1) {
                assert(seq!['['] + s.subrange(pos + 1, end) =~= s.subrange(pos, end));
            }
        } else if let Some(t) = base_type(s[pos]) {
            assert(spec_type_text(t) =~= s.subrange(pos, pos + 1));
        }
    }
}

/// The descriptors of parsed parameters are the text they were parsed from,
/// and a closing parenthesis stands behind them.
pub proof fn lemma_parameters_round_trip(s: Seq<char>, pos: int)
    requires
        0 <= pos <= s.len(),
    ensures
        match spec_parse_parameters(s, pos) {
            Ok((types, close)) => pos <= close < s.len() && s[close] == ')' && spec_types_text(
                types,
            ) == s.subrange(pos, close),
            Err(_) => true,
        },
    decreases s.len() - pos,
{
    if pos < s.len() {
        if s[pos] == ')' {
            assert(s.subrange(pos, pos) =~= Seq::<char>::empty());
        } else {
            lemma_type_round_trip(s, pos);
            if let Ok((t, next)) = spec_parse_type(s, pos) {
                lemma_parameters_round_trip(s, next);
                if let Ok((rest, close)) = spec_parse_parameters(s, next) {
                    let types = seq![t] + rest;
                    assert(types.first() == t);
                    assert(types.drop_first() =~= rest);
                    assert(s.subrange(pos, next) + s.subrange(next, close) =~= s.subrange(
                        pos,
                        close,
                    ));
                }
            }
        }
    }
}

/// The descriptor of a parsed method is the text it was parsed from.
pub proof fn lemma_method_round_trip(s: Seq<char>)
    ensures
        match spec_parse_method(s) {
            Ok(m) => spec_method_text(m) == s,
            Err(_) => true,
        },
{
    if s.len() > 0 && s[0] == '(' {
        lemma_parameters_round_trip(s, 1);
        if let Ok((types, close)) = spec_parse_parameters(s, 1) {
            lemma_type_round_trip(s, close + 1);
            if let Ok((t, end)) = spec_parse_type(s, close + 1) {
                if end == s.len() {
                    assert(seq!['('] + s.subrange(1, close) + seq![')'] + s.subrange(
                        close + 1,
                        end,
                    ) =~= s);
                }
            }
        }
    }
}

/// Parsing the descriptor of a parsed method gives the same method again.
pub proof fn lemma_parse_is_idempotent(s: Seq<char>)
    ensures
        match spec_parse_method(s) {
            Ok(m) => spec_parse_method(spec_method_text(m)) == Ok::<MethodView, int>(m),
            Err(_) => true,
        },
{
    lemma_method_round_trip(s);
}

/// The outcome `r` with the types `done` put before its types.
pub open spec fn after_types(done: Seq<TypeView>, r: Result<(Seq<TypeView>, int), int>) -> Result<
    (Seq<TypeView>, int),
    int,
> {
    match r {
        Ok((rest, close)) => Ok((done + rest, close)),
        Err(e) => Err(e),
    }
}

/// The descriptors of a run of types with one more type behind it.
pub proof fn lemma_types_text_push(types: Seq<TypeView>, t: TypeView)
    ensures
        spec_types_text(types.push(t)) == spec_types_text(types) + spec_type_text(t),
    decreases types.len(),
{
    let none = Seq::<TypeView>::empty();
    assert(spec_types_text(none) =~= Seq::<char>::empty());
    if types.len() == 0 {
        assert(types.push(t).drop_first() =~= none);
        assert(spec_types_text(types.push(t)) =~= spec_types_text(types) + spec_type_text(t));
    } else {
        lemma_types_text_push(types.drop_first(), t);
        assert(types.push(t).drop_first() =~= types.drop_first().push(t));
        assert(types.push(t).first() == types.first());
        assert(spec_types_text(types.push(t)) =~= spec_types_text(types) + spec_type_text(t));
    }
}

/// The position of the first `;` of `s` at or behind `from`, or `len`.
fn scan_semicolon(s: &str, len: usize, from: usize) -> (r: usize)
    requires
        len == s@.len(),
        from <= len,
    ensures
        r == find_semicolon(s@, from as int),
{
    let mut i: usize = from;
    while i < len
        invariant
            from <= i <= len,
            len == s@.len(),
            find_semicolon(s@, from as int) == find_semicolon(s@, i as int),
        decreases len - i,
    {
        if s.get_char(i) == ';' {
            return i;
        }
        i = i + 1;
    }
    i
}

impl FieldType {
    /// Parses one type at character `pos` of `s` and returns it with the
    /// position behind it. `V` is accepted here, except as the element of an
    /// array.
    pub fn from_str_internal(s: &str, pos: usize) -> (r: Result<(FieldType, usize), Error>)
        ensures
            match spec_parse_type(s@, pos as int) {
                Ok((t, end)) => r is Ok && r->Ok_0.0.deep_view() == t && r->Ok_0.1 == end,
                Err(p) => r is Err && is_invalid_at(r->Err_0, s@, p),
            },
        decreases s@.len() - pos,
    {
        let len: usize = s.unicode_len();
        if pos >= len {
            return Err(Error::InvalidDescriptor { descriptor: s.to_owned(), position: pos });
        }
        let c: char = s.get_char(pos);
        if c == 'L' {
            let end: usize = scan_semicolon(s, len, pos + 1);
            proof {
                lemma_find_semicolon(s@, pos + 1);
            }
            if end < len {
                let name = s.substring_char(pos + 1, end).to_owned();
                Ok((FieldType::Object(name), end + 1))
            } else {
                Err(Error::InvalidDescriptor { descriptor: s.to_owned(), position: len })
            }
        } else if c == '[' {
            proof {
                lemma_type_round_trip(s@, pos + 1);
            }
            let (element, end) = FieldType::from_str_internal(s, pos + 1)?;
            if element.is_void() {
                Err(Error::InvalidDescriptor { descriptor: s.to_owned(), position: pos + 1 })
            } else {
                Ok((FieldType::Array(Box::new(element)), end))
            }
        } else if c == 'B' {
            Ok((FieldType::Byte, pos + 1))
        } else if c == 'C' {
            Ok((FieldType::Char, pos + 1))
        } else if c == 'D' {
            Ok((FieldType::Double, pos + 1))
        } else if c == 'F' {
            Ok((FieldType::Float, pos + 1))
        } else if c == 'I' {
            Ok((FieldType::Int, pos + 1))
        } else if c == 'J' {
            Ok((FieldType::Long, pos + 1))
        } else if c == 'S' {
            Ok((FieldType::Short, pos + 1))
        } else if c == 'Z' {
            Ok((FieldType::Boolean, pos + 1))
        } else if c == 'V' {
            Ok((FieldType::Void, pos + 1))
        } else {
            Err(Error::InvalidDescriptor { descriptor: s.to_owned(), position: pos })
        }
    }

    /// Parses the descriptor of a field: one type, not `V`, and nothing
    /// behind it.
    pub fn from_str(s: &str) -> (r: Result<FieldType, Error>)
        ensures
            match spec_parse_field_type(s@) {
                Ok(t) => r is Ok && r->Ok_0.deep_view() == t,
                Err(p) => r is Err && is_invalid_at(r->Err_0, s@, p),
            },
    {
        let (t, end) = FieldType::from_str_internal(s, 0)?;
        if t.is_void() {
            Err(Error::InvalidDescriptor { descriptor: s.to_owned(), position: 0 })
        } else if end != s.unicode_len() {
            Err(Error::InvalidDescriptor { descriptor: s.to_owned(), position: end })
        } else {
            Ok(t)
        }
    }

    /// Whether the type is `Void`.
    pub fn is_void(&self) -> (r: bool)
        ensures
            r == (self.deep_view() is Void),
    {
        match self {
            FieldType::Void => true,
            _ => false,
        }
    }

    /// Appends the descriptor of the type to `out`.
    pub fn write_descriptor(&self, out: &mut String)
        ensures
            final(out)@ == old(out)@ + spec_type_text(self.deep_view()),
        decreases self,
    {
        proof {
            reveal_strlit("B");
            reveal_strlit("C");
            reveal_strlit("D");
            reveal_strlit("F");
            reveal_strlit("I");
            reveal_strlit("J");
            reveal_strlit("L");
            reveal_strlit(";");
            reveal_strlit("S");
            reveal_strlit("Z");
            reveal_strlit("[");
            reveal_strlit("V");
        }
        match self {
            FieldType::Byte => out.append("B"),
            FieldType::Char => out.append("C"),
            FieldType::Double => out.append("D"),
            FieldType::Float => out.append("F"),
            FieldType::Int => out.append("I"),
            FieldType::Long => out.append("J"),
            FieldType::Object(name) => {
                out.append("L");
                out.append(name.as_str());
                out.append(";");
            },
            FieldType::Short => out.append("S"),
            FieldType::Boolean => out.append("Z"),
            FieldType::Array(element) => {
                out.append("[");
                element.write_descriptor(out);
            },
            FieldType::Void => out.append("V"),
        }
        assert(out@ =~= old(out)@ + spec_type_text(self.deep_view()));
    }

    /// The descriptor of the type.
    pub fn to_descriptor(&self) -> (text: String)
        ensures
            text@ == spec_type_text(self.deep_view()),
    {
        let mut text = String::new();
        self.write_descriptor(&mut text);
        assert(text@ =~= spec_type_text(self.deep_view()));
        text
    }
}

impl MethodDescriptor {
    /// Parses the descriptor of a method: the parameter types in
    /// parentheses, none of them `V`, then the result type, and nothing
    /// behind it.
    pub fn from_str(s: &str) -> (r: Result<MethodDescriptor, Error>)
        ensures
            match spec_parse_method(s@) {
                Ok(m) => r is Ok && r->Ok_0.deep_view() == m,
                Err(p) => r is Err && is_invalid_at(r->Err_0, s@, p),
            },
    {
        let len: usize = s.unicode_len();
        if len == 0 || s.get_char(0) != '(' {
            return Err(Error::InvalidDescriptor { descriptor: s.to_owned(), position: 0 });
        }
        let mut parameter_types: Vec<FieldType> = Vec::new();
        let mut pos: usize = 1;
        proof {
            assert(parameter_types.deep_view() =~= Seq::<TypeView>::empty());
            if let Ok((rest, close)) = spec_parse_parameters(s@, 1) {
                assert(Seq::<TypeView>::empty() + rest =~= rest);
            }
        }
        while pos < len && s.get_char(pos) != ')'
            invariant
                1 <= pos <= len,
                len == s@.len(),
                s@[0] == '(',
                spec_parse_parameters(s@, 1) == after_types(
                    parameter_types.deep_view(),
                    spec_parse_parameters(s@, pos as int),
                ),
            decreases len - pos,
        {
            let ghost done = parameter_types.deep_view();
            proof {
                lemma_type_round_trip(s@, pos as int);
            }
            let (t, next) = FieldType::from_str_internal(s, pos)?;
            if t.is_void() {
                return Err(Error::InvalidDescriptor { descriptor: s.to_owned(), position: pos });
            }
            let ghost v = t.deep_view();
            parameter_types.push(t);
            proof {
                assert(parameter_types.deep_view() =~= done.push(v));
                if let Ok((rest, close)) = spec_parse_parameters(s@, next as int) {
                    assert(done + (seq![v] + rest) =~= done.push(v) + rest);
                }
            }
            pos = next;
        }
        if pos >= len {
            return Err(Error::InvalidDescriptor { descriptor: s.to_owned(), position: pos });
        }
        proof {
            assert(parameter_types.deep_view() + Seq::<TypeView>::empty()
                =~= parameter_types.deep_view());
        }
        let (return_type, end) = FieldType::from_str_internal(s, pos + 1)?;
        if end != len {
            return Err(Error::InvalidDescriptor { descriptor: s.to_owned(), position: end });
        }
        Ok(MethodDescriptor { parameter_types, return_type })
    }

    /// The descriptor of the method.
    pub fn to_descriptor(&self) -> (text: String)
        ensures
            text@ == spec_method_text(self.deep_view()),
    {
        proof {
            reveal_strlit("(");
            reveal_strlit(")");
        }
        let ghost types = self.parameter_types.deep_view();
        let mut text = String::new();
        text.append("(");
        let mut i: usize = 0;
        assert(types.take(0) =~= Seq::<TypeView>::empty());
        while i < self.parameter_types.len()
            invariant
                i <= self.parameter_types.len(),
                types == self.parameter_types.deep_view(),
                text@ == seq!['('] + spec_types_text(types.take(i as int)),
            decreases self.parameter_types.len() - i,
        {
            self.parameter_types[i].write_descriptor(&mut text);
            proof {
                lemma_types_text_push(types.take(i as int), types[i as int]);
                assert(types.take(i as int).push(types[i as int]) =~= types.take(i + 1));
                assert(text@ =~= seq!['('] + spec_types_text(types.take(i + 1)));
            }
            i = i + 1;
        }
        assert(types.take(i as int) =~= types);
        text.append(")");
        self.return_type.write_descriptor(&mut text);
        assert(text@ =~= spec_method_text(self.deep_view()));
        text
    }
}

impl std::str::FromStr for FieldType {
    type Err = Error;

    /// Parses the descriptor of a field, as [`parse_field_type`] does.
    fn from_str(s: &str) -> (r: Result<FieldType, Error>)
        ensures
            match spec_parse_field_type(s@) {
                Ok(t) => r is Ok && r->Ok_0.deep_view() == t,
                Err(p) => r is Err && is_invalid_at(r->Err_0, s@, p),
            },
    {
        parse_field_type(s)
    }
}

impl std::str::FromStr for MethodDescriptor {
    type Err = Error;

    /// Parses the descriptor of a method, as [`parse_method_descriptor`] does.
    fn from_str(s: &str) -> (r: Result<MethodDescriptor, Error>)
        ensures
            match spec_parse_method(s@) {
                Ok(m) => r is Ok && r->Ok_0.deep_view() == m,
                Err(p) => r is Err && is_invalid_at(r->Err_0, s@, p),
            },
    {
        parse_method_descriptor(s)
    }
}

/// Parses the descriptor of a field.
pub fn parse_field_type(s: &str) -> (r: Result<FieldType, Error>)
    ensures
        match spec_parse_field_type(s@) {
            Ok(t) => r is Ok && r->Ok_0.deep_view() == t,
            Err(p) => r is Err && is_invalid_at(r->Err_0, s@, p),
        },
{
    FieldType::from_str(s)
}

/// Parses the descriptor of a method.
pub fn parse_method_descriptor(s: &str) -> (r: Result<MethodDescriptor, Error>)
    ensures
        match spec_parse_method(s@) {
            Ok(m) => r is Ok && r->Ok_0.deep_view() == m,
            Err(p) => r is Err && is_invalid_at(r->Err_0, s@, p),
        },
{
    MethodDescriptor::from_str(s)
}

} // verus!
