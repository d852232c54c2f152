//! App-declared shader parameters. The app names and types them, the crate
//! lays them out the way Metal expects and keeps their bytes for upload as
//! `constant EffectParams &p [[buffer(2)]]`.

use crate::text::{char_vec, decimal, push_decimal, str_eq};
use vstd::prelude::*;

verus! {

/// Type of one shader parameter.
#[derive(Debug, Clone, Copy, PartialEq, Eq, Structural)]
pub enum Param {
    Float,
    Float2,
    Float3,
    Float4,
    Int,
}

/// Bytes a value of type `p` occupies in an MSL `constant` struct.
pub open spec fn param_size(p: Param) -> nat {
    match p {
        Param::Float | Param::Int => 4,
        Param::Float2 => 8,
        Param::Float3 | Param::Float4 => 16,
    }
}

/// The MSL type name of `p`.
pub open spec fn param_msl(p: Param) -> Seq<char> {
    match p {
        Param::Float => "float"@,
        Param::Float2 => "float2"@,
        Param::Float3 => "float3"@,
        Param::Float4 => "float4"@,
        Param::Int => "int"@,
    }
}

impl Param {
    /// Bytes the value occupies in an MSL `constant` struct.
    pub fn size(self) -> (r: usize)
        ensures
            r == param_size(self),
    {
        match self {
            Param::Float | Param::Int => 4,
            Param::Float2 => 8,
            // float3 pads to 16, same as float4.
            Param::Float3 | Param::Float4 => 16,
        }
    }

    /// Byte alignment in an MSL `constant` struct. Equal to size for every
    /// type here; the MSL vector table keeps them the same.
    pub fn align(self) -> (r: usize)
        ensures
            r == param_size(self),
    {
        self.size()
    }

    /// The MSL type name.
    pub fn msl(self) -> (r: &'static str)
        ensures
            r@ == param_msl(self),
    {
        match self {
            Param::Float => "float",
            Param::Float2 => "float2",
            Param::Float3 => "float3",
            Param::Float4 => "float4",
            Param::Int => "int",
        }
    }
}

/// One value for a parameter. Float components are held as their IEEE-754
/// bit patterns (`f32::to_bits`), which is what reaches the GPU.
#[derive(Debug, Clone, Copy, PartialEq, Eq)]
pub enum ParamValue {
    Float(u32),
    Float2([u32; 2]),
    Float3([u32; 3]),
    Float4([u32; 4]),
    Int(i32),
}

/// The type a value fits.
pub open spec fn value_type(v: ParamValue) -> Param {
    match v {
        ParamValue::Float(_) => Param::Float,
        ParamValue::Float2(_) => Param::Float2,
        ParamValue::Float3(_) => Param::Float3,
        ParamValue::Float4(_) => Param::Float4,
        ParamValue::Int(_) => Param::Int,
    }
}

/// The four little-endian bytes of `x`.
pub open spec fn le_bytes(x: nat) -> Seq<u8> {
    seq![
        (x % 256) as u8,
        ((x / 256) % 256) as u8,
        ((x / 65536) % 256) as u8,
        ((x / 16777216) % 256) as u8,
    ]
}

/// Two's complement of `v` as an unsigned 32-bit number.
pub open spec fn twos_complement(v: i32) -> nat {
    if v >= 0 {
        v as nat
    } else {
        (v + 4294967296) as nat
    }
}

/// The bytes a value writes, little-endian, component by component.
/// A float3 writes 12 bytes and leaves its padding alone.
#[verifier::opaque]
pub open spec fn value_bytes(v: ParamValue) -> Seq<u8> {
    match v {
        ParamValue::Float(x) => le_bytes(x as nat),
        ParamValue::Float2(a) => le_bytes(a[0] as nat) + le_bytes(a[1] as nat),
        ParamValue::Float3(a) => le_bytes(a[0] as nat) + le_bytes(a[1] as nat) + le_bytes(
            a[2] as nat,
        ),
        ParamValue::Float4(a) => le_bytes(a[0] as nat) + le_bytes(a[1] as nat) + le_bytes(
            a[2] as nat,
        ) + le_bytes(a[3] as nat),
        ParamValue::Int(i) => le_bytes(twos_complement(i)),
    }
}

/// The number that bytes `k..k + 4` of `b` spell, read little-endian.
pub open spec fn le_word(b: Seq<u8>, k: int) -> int {
    b[k] + 256 * b[k + 1] + 65536 * b[k + 2] + 16777216 * b[k + 3]
}

proof fn lemma_le_bytes_read_back(x: nat)
    requires
        x < 0x1_0000_0000,
    ensures
        le_bytes(x).len() == 4,
        le_word(le_bytes(x), 0) == x,
{
    let b = le_bytes(x);
    let x0 = x % 256;
    let q0 = x / 256;
    let x1 = q0 % 256;
    let q1 = q0 / 256;
    let x2 = q1 % 256;
    let q2 = q1 / 256;
    assert(x == x0 + 256 * q0 && 0 <= x0 < 256) by (nonlinear_arith)
        requires x0 == x % 256, q0 == x / 256;
    assert(q0 == x1 + 256 * q1 && 0 <= x1 < 256) by (nonlinear_arith)
        requires x1 == q0 % 256, q1 == q0 / 256;
    assert(q1 == x2 + 256 * q2 && 0 <= x2 < 256) by (nonlinear_arith)
        requires x2 == q1 % 256, q2 == q1 / 256;
    assert(q1 == x / 65536) by (nonlinear_arith)
        requires q0 == x / 256, q1 == q0 / 256;
    assert(q2 == x / 16777216) by (nonlinear_arith)
        requires q1 == x / 65536, q2 == q1 / 256;
    assert(q2 < 256) by (nonlinear_arith)
        requires q2 == x / 16777216, x < 0x1_0000_0000;
    assert(q2 % 256 == q2);
}

/// A value writes its components in order, each as four little-endian
/// bytes: reading bytes `4i..4i + 4` back gives component `i`, and an
/// int gives its two's complement. Nothing else is written.
pub proof fn lemma_value_bytes_in_order(v: ParamValue)
    ensures
        match v {
            ParamValue::Float(x) => value_bytes(v).len() == 4 && le_word(value_bytes(v), 0) == x,
            ParamValue::Float2(a) => value_bytes(v).len() == 8 && forall|i: int|
                0 <= i < 2 ==> le_word(value_bytes(v), 4 * i) == #[trigger] a[i],
            ParamValue::Float3(a) => value_bytes(v).len() == 12 && forall|i: int|
                0 <= i < 3 ==> le_word(value_bytes(v), 4 * i) == #[trigger] a[i],
            ParamValue::Float4(a) => value_bytes(v).len() == 16 && forall|i: int|
                0 <= i < 4 ==> le_word(value_bytes(v), 4 * i) == #[trigger] a[i],
            ParamValue::Int(n) => value_bytes(v).len() == 4 && le_word(value_bytes(v), 0) == if n
                >= 0 {
                n as int
            } else {
                n + 0x1_0000_0000
            },
        },
{
    reveal(value_bytes);
    let b = value_bytes(v);
    match v {
        ParamValue::Float(x) => {
            lemma_le_bytes_read_back(x as nat);
        },
        ParamValue::Float2(a) => {
            lemma_le_bytes_read_back(a[0] as nat);
            lemma_le_bytes_read_back(a[1] as nat);
            let p = le_bytes(a[0] as nat);
            let q = le_bytes(a[1] as nat);
            assert(b.subrange(0, 4) =~= p && b.subrange(4, 8) =~= q);
            assert(le_word(b, 0) == le_word(p, 0));
            assert(le_word(b, 4) == le_word(q, 0));
        },
        ParamValue::Float3(a) => {
            lemma_le_bytes_read_back(a[0] as nat);
            lemma_le_bytes_read_back(a[1] as nat);
            lemma_le_bytes_read_back(a[2] as nat);
            let p = le_bytes(a[0] as nat);
            let q = le_bytes(a[1] as nat);
            let r = le_bytes(a[2] as nat);
            assert(b.subrange(0, 4) =~= p && b.subrange(4, 8) =~= q && b.subrange(8, 12) =~= r);
            assert(le_word(b, 0) == le_word(p, 0));
            assert(le_word(b, 4) == le_word(q, 0));
            assert(le_word(b, 8) == le_word(r, 0));
        },
        ParamValue::Float4(a) => {
            lemma_le_bytes_read_back(a[0] as nat);
            lemma_le_bytes_read_back(a[1] as nat);
            lemma_le_bytes_read_back(a[2] as nat);
            lemma_le_bytes_read_back(a[3] as nat);
            let p = le_bytes(a[0] as nat);
            let q = le_bytes(a[1] as nat);
            let r = le_bytes(a[2] as nat);
            let w = le_bytes(a[3] as nat);
            assert(b.subrange(0, 4) =~= p && b.subrange(4, 8) =~= q && b.subrange(8, 12) =~= r
                && b.subrange(12, 16) =~= w);
            assert(le_word(b, 0) == le_word(p, 0));
            assert(le_word(b, 4) == le_word(q, 0));
            assert(le_word(b, 8) == le_word(r, 0));
            assert(le_word(b, 12) == le_word(w, 0));
        },
        ParamValue::Int(n) => {
            lemma_le_bytes_read_back(twos_complement(n));
        },
    }
}

fn push_le(out: &mut Vec<u8>, x: u32)
    ensures
        final(out)@ == old(out)@ + le_bytes(x as nat),
{
    out.push((x % 256) as u8);
    out.push(((x / 256) % 256) as u8);
    out.push(((x / 65536) % 256) as u8);
    out.push(((x / 16777216) % 256) as u8);
    assert(final(out)@ =~= old(out)@ + le_bytes(x as nat));
}

impl ParamValue {
    /// The type this value fits.
    pub fn ty(&self) -> (r: Param)
        ensures
            r == value_type(*self),
    {
        match self {
            ParamValue::Float(_) => Param::Float,
            ParamValue::Float2(_) => Param::Float2,
            ParamValue::Float3(_) => Param::Float3,
            ParamValue::Float4(_) => Param::Float4,
            ParamValue::Int(_) => Param::Int,
        }
    }

    /// The bytes the value writes, little-endian.
    fn le_bytes(&self) -> (r: Vec<u8>)
        ensures
            r@ == value_bytes(*self),
            r@.len() <= param_size(value_type(*self)),
    {
        let mut out: Vec<u8> = Vec::new();
        match self {
            ParamValue::Float(x) => {
                push_le(&mut out, *x);
            },
            ParamValue::Float2(a) => {
                push_le(&mut out, a[0]);
                push_le(&mut out, a[1]);
            },
            ParamValue::Float3(a) => {
                push_le(&mut out, a[0]);
                push_le(&mut out, a[1]);
                push_le(&mut out, a[2]);
            },
            ParamValue::Float4(a) => {
                push_le(&mut out, a[0]);
                push_le(&mut out, a[1]);
                push_le(&mut out, a[2]);
                push_le(&mut out, a[3]);
            },
            ParamValue::Int(i) => {
                let bits: u32 = if *i >= 0 {
                    *i as u32
                } else {
                    (*i as i64 + 4294967296i64) as u32
                };
                push_le(&mut out, bits);
            },
        }
        proof {
            reveal(value_bytes);
        }
        assert(out@ =~= value_bytes(*self));
        out
    }
}

/// What `ParamLayout::new` and `ParamLayout::set` can reject.
#[derive(Debug, Clone, PartialEq, Eq)]
pub enum ParamError {
    UnknownName(String),
    TypeMismatch { name: String, expected: Param, got: Param },
    DuplicateName(String),
    BadIdentifier(String),
}

/// A `ParamError` with its strings taken as character sequences.
pub enum ParamErrorView {
    UnknownName(Seq<char>),
    TypeMismatch { name: Seq<char>, expected: Param, got: Param },
    DuplicateName(Seq<char>),
    BadIdentifier(Seq<char>),
}

impl View for ParamError {
    type V = ParamErrorView;

    open spec fn view(&self) -> ParamErrorView {
        match self {
            ParamError::UnknownName(n) => ParamErrorView::UnknownName(n@),
            ParamError::TypeMismatch { name, expected, got } => ParamErrorView::TypeMismatch {
                name: name@,
                expected: *expected,
                got: *got,
            },
            ParamError::DuplicateName(n) => ParamErrorView::DuplicateName(n@),
            ParamError::BadIdentifier(n) => ParamErrorView::BadIdentifier(n@),
        }
    }
}

/// The message a `ParamError` displays.
pub open spec fn param_error_message(e: ParamErrorView) -> Seq<char> {
    match e {
        ParamErrorView::UnknownName(n) => "no parameter named `"@ + n + "`"@,
        ParamErrorView::TypeMismatch { name, expected, got } => "parameter `"@ + name
            + "` is "@ + param_msl(expected) + " but the value is "@ + param_msl(got),
        ParamErrorView::DuplicateName(n) => "parameter `"@ + n + "` declared twice"@,
        ParamErrorView::BadIdentifier(n) => "`"@ + n + "` is not a valid MSL identifier"@,
    }
}

impl ParamError {
    /// The human-readable message, as the error displays it.
    pub fn message(&self) -> (r: String)
        ensures
            r@ == param_error_message(self@),
    {
        let mut out = String::new();
        match self {
            ParamError::UnknownName(name) => {
                out.append("no parameter named `");
                out.append(name.as_str());
                out.append("`");
            },
            ParamError::TypeMismatch { name, expected, got } => {
                out.append("parameter `");
                out.append(name.as_str());
                out.append("` is ");
                out.append(expected.msl());
                out.append(" but the value is ");
                out.append(got.msl());
            },
            ParamError::DuplicateName(name) => {
                out.append("parameter `");
                out.append(name.as_str());
                out.append("` declared twice");
            },
            ParamError::BadIdentifier(name) => {
                out.append("`");
                out.append(name.as_str());
                out.append("` is not a valid MSL identifier");
            },
        }
        assert(out@ =~= param_error_message(self@));
        out
    }
}

/// One declared parameter and where Metal puts it.
#[derive(Debug, Clone, PartialEq, Eq)]
pub struct Field {
    pub name: String,
    pub ty: Param,
    pub offset: usize,
}

/// The declared parameters in Metal layout, plus their current bytes.
#[derive(Debug, Clone, PartialEq)]
pub struct ParamLayout {
    fields: Vec<Field>,
    size: usize,
    bytes: Vec<u8>,
}

/// `value` rounded up to a multiple of `align`.
pub open spec fn align_up_spec(value: nat, align: nat) -> nat {
    if align == 0 || value % align == 0 {
        value
    } else {
        (value - value % align + align) as nat
    }
}

/// `value` rounded up to a multiple of `align`.
pub fn align_up(value: usize, align: usize) -> (r: usize)
    requires
        align > 0,
        align_up_spec(value as nat, align as nat) <= usize::MAX,
    ensures
        r == align_up_spec(value as nat, align as nat),
{
    let rem = value % align;
    if rem == 0 {
        value
    } else {
        assert(rem <= value) by (nonlinear_arith)
            requires
                rem == value % align,
                align > 0,
        ;
        value - rem + align
    }
}

/// Where the next field would start: the end of the last one laid out.
pub open spec fn cursor_after(tys: Seq<Param>, k: nat) -> nat
    decreases k,
{
    if k == 0 || k > tys.len() {
        0
    } else {
        align_up_spec(cursor_after(tys, (k - 1) as nat), param_size(tys[k - 1]))
            + param_size(tys[k - 1])
    }
}

/// Offset of field `k`: the cursor rounded up to the field's alignment.
pub open spec fn field_offset(tys: Seq<Param>, k: nat) -> nat {
    align_up_spec(cursor_after(tys, k), param_size(tys[k as int]))
}

/// The widest alignment among the first `k` fields, at least 1.
pub open spec fn max_align(tys: Seq<Param>, k: nat) -> nat
    decreases k,
{
    if k == 0 || k > tys.len() {
        1
    } else {
        let m = max_align(tys, (k - 1) as nat);
        if param_size(tys[k - 1]) > m {
            param_size(tys[k - 1])
        } else {
            m
        }
    }
}

/// The struct's size: the end of the last field, rounded up to the widest
/// member.
pub open spec fn struct_size(tys: Seq<Param>) -> nat {
    align_up_spec(cursor_after(tys, tys.len()), max_align(tys, tys.len()))
}

/// `[A-Za-z]`.
pub open spec fn is_ascii_alpha(c: char) -> bool {
    ('a' <= c && c <= 'z') || ('A' <= c && c <= 'Z')
}

/// `[0-9]`.
pub open spec fn is_ascii_digit(c: char) -> bool {
    '0' <= c && c <= '9'
}

/// `[A-Za-z_][A-Za-z0-9_]*`, and not a `_pad` name the crate hands out.
pub open spec fn spec_is_identifier(s: Seq<char>) -> bool {
    &&& s.len() > 0
    &&& (is_ascii_alpha(s[0]) || s[0] == '_')
    &&& forall|i: int|
        1 <= i < s.len() ==> is_ascii_alpha(#[trigger] s[i]) || is_ascii_digit(s[i]) || s[i]
            == '_'
    &&& !(s.len() >= 4 && s.subrange(0, 4) == "_pad"@)
}

fn is_alpha(c: char) -> (r: bool)
    ensures
        r == is_ascii_alpha(c),
{
    ('a' <= c && c <= 'z') || ('A' <= c && c <= 'Z')
}

fn is_digit(c: char) -> (r: bool)
    ensures
        r == is_ascii_digit(c),
{
    '0' <= c && c <= '9'
}

/// `[A-Za-z_][A-Za-z0-9_]*`, and not a `_pad` name the crate hands out.
pub fn is_identifier(name: &str) -> (r: bool)
    ensures
        r == spec_is_identifier(name@),
{
    let chars = char_vec(name);
    if chars.len() == 0 {
        return false;
    }
    if !(is_alpha(chars[0]) || chars[0] == '_') {
        return false;
    }
    let mut i: usize = 1;
    while i < chars.len()
        invariant
            chars@ == name@,
            1 <= i <= chars@.len(),
            forall|k: int|
                1 <= k < i ==> is_ascii_alpha(#[trigger] chars@[k]) || is_ascii_digit(chars@[k])
                    || chars@[k] == '_',
        decreases chars@.len() - i,
    {
        let c = chars[i];
        if !(is_alpha(c) || is_digit(c) || c == '_') {
            return false;
        }
        i = i + 1;
    }
    proof {
        reveal_strlit("_pad");
    }
    if chars.len() >= 4 && chars[0] == '_' && chars[1] == 'p' && chars[2] == 'a' && chars[3]
        == 'd' {
        assert(name@.subrange(0, 4) =~= "_pad"@);
        return false;
    }
    assert(!(name@.len() >= 4 && name@.subrange(0, 4) == "_pad"@)) by {
        if name@.len() >= 4 && name@.subrange(0, 4) == "_pad"@ {
            assert(name@.subrange(0, 4)[0] == '_');
            assert(name@.subrange(0, 4)[1] == 'p');
            assert(name@.subrange(0, 4)[2] == 'a');
            assert(name@.subrange(0, 4)[3] == 'd');
        }
    }
    true
}

/// A declared field: its name as characters, its type, its offset.
pub struct FieldView {
    pub name: Seq<char>,
    pub ty: Param,
    pub offset: nat,
}

/// A layout taken as its fields, its size and its bytes.
pub struct LayoutView {
    pub fields: Seq<FieldView>,
    pub size: nat,
    pub bytes: Seq<u8>,
}

/// Declarations, with each name taken as characters.
pub open spec fn decls_view(decls: Seq<(&str, Param)>) -> Seq<(Seq<char>, Param)> {
    decls.map_values(|d: (&str, Param)| (d.0@, d.1))
}

/// The declarations actually laid out: an empty list becomes one
/// `float _pad0`, so the MSL struct is never empty.
pub open spec fn effective_decls(decls: Seq<(Seq<char>, Param)>) -> Seq<(Seq<char>, Param)> {
    if decls.len() == 0 {
        seq![("_pad0"@, Param::Float)]
    } else {
        decls
    }
}

pub open spec fn decl_types(decls: Seq<(Seq<char>, Param)>) -> Seq<Param> {
    decls.map_values(|d: (Seq<char>, Param)| d.1)
}

/// The fields Metal lays out for `decls`, in order.
pub open spec fn layout_fields(decls: Seq<(Seq<char>, Param)>) -> Seq<FieldView> {
    Seq::new(
        decls.len(),
        |k: int|
            FieldView { name: decls[k].0, ty: decls[k].1, offset: field_offset(decls_types_of(decls), k as nat) },
    )
}

pub open spec fn decls_types_of(decls: Seq<(Seq<char>, Param)>) -> Seq<Param> {
    decl_types(decls)
}

/// The fresh layout for `decls`: fields in Metal layout, all bytes zero.
pub open spec fn spec_layout(decls: Seq<(Seq<char>, Param)>) -> LayoutView {
    let d = effective_decls(decls);
    let size = struct_size(decl_types(d));
    LayoutView { fields: layout_fields(d), size, bytes: Seq::new(size, |i: int| 0u8) }
}

/// Declaration `i` is acceptable: a valid identifier, not declared before.
pub open spec fn decl_ok(decls: Seq<(Seq<char>, Param)>, i: int) -> bool {
    &&& spec_is_identifier(decls[i].0)
    &&& forall|j: int| 0 <= j < i ==> decls[j].0 != decls[i].0
}

/// The error for declaration `i`, the first that is not acceptable.
pub open spec fn decl_error(decls: Seq<(Seq<char>, Param)>, i: int) -> ParamErrorView {
    if !spec_is_identifier(decls[i].0) {
        ParamErrorView::BadIdentifier(decls[i].0)
    } else {
        ParamErrorView::DuplicateName(decls[i].0)
    }
}

/// Every declaration is acceptable.
pub open spec fn decls_ok(decls: Seq<(Seq<char>, Param)>) -> bool {
    forall|i: int| 0 <= i < decls.len() ==> decl_ok(decls, i)
}

/// The struct for `decls` fits the address space: its size, and with it
/// every offset and the cursor, is at most `usize::MAX`.
pub open spec fn layout_fits(decls: Seq<(Seq<char>, Param)>) -> bool {
    struct_size(decl_types(effective_decls(decls))) <= usize::MAX
}

/// What laying out `decls` needs: declarations that are rejected need
/// nothing; accepted ones must fit a `usize`, as every offset is one.
pub open spec fn can_lay_out(decls: Seq<(Seq<char>, Param)>) -> bool {
    decls_ok(decls) ==> layout_fits(decls)
}

/// Declarations few enough that 32 bytes each, and the final rounding,
/// fit a `usize` can always be laid out.
pub proof fn lemma_few_decls_fit(decls: Seq<(Seq<char>, Param)>)
    requires
        32 * decls.len() + 48 <= usize::MAX,
    ensures
        layout_fits(decls),
        can_lay_out(decls),
{
    let tys = decl_types(effective_decls(decls));
    let n = tys.len();
    lemma_cursor_bound(tys, n);
    lemma_max_align(tys, n);
    lemma_align_up(cursor_after(tys, n), max_align(tys, n));
}

/// The index of the first field named `name`, if any.
#[verifier::opaque]
pub open spec fn find_field(fields: Seq<FieldView>, name: Seq<char>) -> Option<int> {
    if exists|k: int| 0 <= k < fields.len() && fields[k].name == name {
        Some(
            choose|k: int|
                0 <= k < fields.len() && fields[k].name == name && forall|j: int|
                    0 <= j < k ==> fields[j].name != name,
        )
    } else {
        None
    }
}

/// `bytes` with `value` written at `offset`.
pub open spec fn write_at(bytes: Seq<u8>, offset: int, value: Seq<u8>) -> Seq<u8> {
    bytes.subrange(0, offset) + value + bytes.subrange(offset + value.len(), bytes.len() as int)
}

impl View for Field {
    type V = FieldView;

    open spec fn view(&self) -> FieldView {
        FieldView { name: self.name@, ty: self.ty, offset: self.offset as nat }
    }
}

impl View for ParamLayout {
    type V = LayoutView;

    closed spec fn view(&self) -> LayoutView {
        LayoutView {
            fields: self.fields@.map_values(|f: Field| f@),
            size: self.size as nat,
            bytes: self.bytes@,
        }
    }
}

/// Every field aligned to its type, fields in order without overlap, all
/// inside the struct, names distinct, bytes as long as the struct.
#[verifier::opaque]
pub open spec fn layout_wf(l: LayoutView) -> bool {
    &&& l.fields.len() > 0
    &&& l.bytes.len() == l.size
    &&& forall|k: int|
        0 <= k < l.fields.len() ==> (#[trigger] l.fields[k]).offset % param_size(l.fields[k].ty)
            == 0
    &&& forall|k: int|
        0 <= k < l.fields.len() ==> (#[trigger] l.fields[k]).offset + param_size(l.fields[k].ty)
            <= l.size
    &&& forall|j: int, k: int|
        0 <= j < k < l.fields.len() ==> (#[trigger] l.fields[j]).offset + param_size(l.fields[j].ty)
            <= (#[trigger] l.fields[k]).offset
    &&& forall|j: int, k: int|
        0 <= j < k < l.fields.len() ==> (#[trigger] l.fields[j]).name != (#[trigger] l.fields[k]).name
}

proof fn lemma_align_up(v: nat, a: nat)
    requires
        a == 4 || a == 8 || a == 16,
    ensures
        v <= align_up_spec(v, a) < v + a,
        align_up_spec(v, a) % a == 0,
{
    assert(v % a < a && v % a <= v) by (nonlinear_arith)
        requires
            a > 0,
    ;
    if v % a != 0 {
        assert(((v - v % a + a) as int) % (a as int) == 0) by (nonlinear_arith)
            requires
                a > 0,
                v % a <= v,
        ;
    }
}

proof fn lemma_cursor_bound(tys: Seq<Param>, k: nat)
    requires
        k <= tys.len(),
    ensures
        cursor_after(tys, k) <= 32 * k,
    decreases k,
{
    if k > 0 {
        lemma_cursor_bound(tys, (k - 1) as nat);
        lemma_align_up(cursor_after(tys, (k - 1) as nat), param_size(tys[k - 1]));
    }
}

proof fn lemma_max_align(tys: Seq<Param>, k: nat)
    requires
        k <= tys.len(),
    ensures
        max_align(tys, k) == 1 || max_align(tys, k) == 4 || max_align(tys, k) == 8 || max_align(
            tys,
            k,
        ) == 16,
        forall|j: int| 0 <= j < k ==> param_size(#[trigger] tys[j]) <= max_align(tys, k),
        k > 0 ==> max_align(tys, k) >= 4,
    decreases k,
{
    if k > 0 {
        lemma_max_align(tys, (k - 1) as nat);
    }
}

/// Offsets are increasing: a field ends at or before the next field's
/// cursor, and the cursor only grows.
proof fn lemma_cursor_mono(tys: Seq<Param>, j: nat, k: nat)
    requires
        j <= k <= tys.len(),
    ensures
        cursor_after(tys, j) <= cursor_after(tys, k),
    decreases k - j,
{
    if j < k {
        lemma_cursor_mono(tys, j, (k - 1) as nat);
        lemma_align_up(cursor_after(tys, (k - 1) as nat), param_size(tys[k - 1]));
    }
}

/// `f` sits at the first multiple of its own size at or after the end of
/// `prev`.
pub open spec fn placed_after(prev: FieldView, f: FieldView) -> bool {
    &&& f.offset % param_size(f.ty) == 0
    &&& prev.offset + param_size(prev.ty) <= f.offset
    &&& f.offset < prev.offset + param_size(prev.ty) + param_size(f.ty)
}

proof fn lemma_max_align_reached(tys: Seq<Param>, k: nat)
    requires
        0 < k <= tys.len(),
    ensures
        exists|j: int| 0 <= j < k && max_align(tys, k) == param_size(#[trigger] tys[j]),
    decreases k,
{
    if k > 1 {
        lemma_max_align_reached(tys, (k - 1) as nat);
        let j = choose|j: int| 0 <= j < k - 1 && max_align(tys, (k - 1) as nat) == param_size(#[trigger] tys[j]);
        if param_size(tys[k - 1]) > max_align(tys, (k - 1) as nat) {
            assert(max_align(tys, k) == param_size(tys[k - 1]));
        } else {
            assert(max_align(tys, k) == param_size(tys[j]));
        }
    } else {
        assert(max_align(tys, 0) == 1);
        assert(max_align(tys, 1) == param_size(tys[0]));
    }
}

proof fn lemma_divides_power(x: nat, m: nat, s: nat)
    requires
        m == 4 || m == 8 || m == 16,
        s == 4 || s == 8 || s == 16,
        s <= m,
        x % m == 0,
    ensures
        x % s == 0,
{
    assert(m % s == 0);
    assert(x % s == 0) by (nonlinear_arith)
        requires
            x % m == 0,
            m % s == 0,
            s > 0,
            m > 0,
    {
        let q = x / m;
        let r = m / s;
        assert(x == q * m);
        assert(m == r * s);
        assert(x == (q * r) * s);
    }
}

/// Metal's layout, field by field: fields keep their declarations' order,
/// names and types; the first sits at 0 and each later one at the first
/// multiple of its own size after the end of the one before; the struct
/// ends at the first size after the last field that every member's size
/// divides. An empty list lays out one `float _pad0`.
pub proof fn lemma_metal_layout(decls: Seq<(Seq<char>, Param)>)
    ensures
        ({
            let l = spec_layout(decls);
            let d = effective_decls(decls);
            let n = l.fields.len() as int;
            let last_end = l.fields[n - 1].offset + param_size(l.fields[n - 1].ty);
            &&& n == d.len() && n > 0
            &&& decls.len() == 0 ==> d == seq![("_pad0"@, Param::Float)]
            &&& forall|k: int| 0 <= k < n ==> (#[trigger] l.fields[k]).name == d[k].0 && l.fields[k].ty == d[k].1
            &&& l.fields[0].offset == 0
            &&& forall|k: int| 1 <= k < n ==> #[trigger] placed_after(l.fields[k - 1], l.fields[k])
            &&& last_end <= l.size
            &&& forall|k: int| 0 <= k < n ==> l.size % param_size((#[trigger] l.fields[k]).ty) == 0
            &&& exists|k: int| 0 <= k < n && l.size < last_end + param_size((#[trigger] l.fields[k]).ty)
            &&& l.bytes.len() == l.size && forall|i: int| 0 <= i < l.size ==> l.bytes[i] == 0
        }),
{
    let l = spec_layout(decls);
    let d = effective_decls(decls);
    let tys = decl_types(d);
    let n = tys.len();
    assert(tys.len() == d.len());
    assert(forall|k: int| 0 <= k < n ==> (#[trigger] l.fields[k]).ty == tys[k]);
    assert(l.fields[0].offset == 0) by {
        lemma_align_up(0, param_size(tys[0]));
    }
    lemma_layout_steps(tys, l.fields);
    lemma_layout_size(tys, l.fields, l.size);
}

proof fn lemma_layout_steps(tys: Seq<Param>, fields: Seq<FieldView>)
    requires
        fields.len() == tys.len(),
        forall|k: int| 0 <= k < tys.len() ==> (#[trigger] fields[k]).ty == tys[k] && fields[k].offset
            == field_offset(tys, k as nat),
    ensures
        forall|k: int| 1 <= k < fields.len() ==> #[trigger] placed_after(fields[k - 1], fields[k]),
{
    assert forall|k: int| 1 <= k < fields.len() implies #[trigger] placed_after(fields[k - 1], fields[k]) by {
        assert(fields[k - 1].ty == tys[k - 1]);
        assert(cursor_after(tys, k as nat) == fields[k - 1].offset + param_size(tys[k - 1]));
        lemma_align_up(cursor_after(tys, k as nat), param_size(tys[k]));
    }
}

proof fn lemma_layout_size(tys: Seq<Param>, fields: Seq<FieldView>, size: nat)
    requires
        fields.len() == tys.len(),
        tys.len() > 0,
        forall|k: int| 0 <= k < tys.len() ==> (#[trigger] fields[k]).ty == tys[k] && fields[k].offset
            == field_offset(tys, k as nat),
        size == struct_size(tys),
    ensures
        ({
            let n = fields.len() as int;
            let last_end = fields[n - 1].offset + param_size(fields[n - 1].ty);
            &&& last_end <= size
            &&& forall|k: int| 0 <= k < n ==> size % param_size((#[trigger] fields[k]).ty) == 0
            &&& exists|k: int| 0 <= k < n && size < last_end + param_size((#[trigger] fields[k]).ty)
        }),
{
    let n = tys.len();
    let c = cursor_after(tys, n);
    assert(fields[n - 1].ty == tys[n - 1]);
    assert(c == fields[n - 1].offset + param_size(tys[n - 1]));
    lemma_max_align(tys, n);
    lemma_max_align_reached(tys, n);
    let m = max_align(tys, n);
    lemma_align_up(c, m);
    assert forall|k: int| 0 <= k < n implies size % param_size((#[trigger] fields[k]).ty) == 0 by {
        lemma_divides_power(size, m, param_size(tys[k]));
    }
    let j = choose|j: int| 0 <= j < n && m == param_size(#[trigger] tys[j]);
    assert(fields[j].ty == tys[j]);
}

proof fn lemma_spec_layout_wf(decls: Seq<(Seq<char>, Param)>)
    requires
        forall|i: int| 0 <= i < decls.len() ==> decl_ok(decls, i),
    ensures
        layout_wf(spec_layout(decls)),
{
    let d = effective_decls(decls);
    let tys = decl_types(d);
    let l = spec_layout(decls);
    reveal(layout_wf);
    assert(tys.len() == d.len());
    lemma_max_align(tys, tys.len());
    lemma_align_up(cursor_after(tys, tys.len()), max_align(tys, tys.len()));
    assert forall|k: int| 0 <= k < l.fields.len() implies (#[trigger] l.fields[k]).offset
        % param_size(l.fields[k].ty) == 0 && l.fields[k].offset + param_size(l.fields[k].ty)
        <= l.size by {
        assert(l.fields[k].ty == tys[k]);
        lemma_align_up(cursor_after(tys, k as nat), param_size(tys[k]));
        assert(cursor_after(tys, (k + 1) as nat) == l.fields[k].offset + param_size(tys[k]));
        lemma_cursor_mono(tys, (k + 1) as nat, tys.len());
    }
    assert forall|j: int, k: int| 0 <= j < k < l.fields.len() implies (
    #[trigger] l.fields[j]).offset + param_size(l.fields[j].ty) <= (
    #[trigger] l.fields[k]).offset by {
        assert(cursor_after(tys, (j + 1) as nat) == l.fields[j].offset + param_size(tys[j]));
        lemma_cursor_mono(tys, (j + 1) as nat, k as nat);
        lemma_align_up(cursor_after(tys, k as nat), param_size(tys[k]));
    }
    assert forall|j: int, k: int| 0 <= j < k < l.fields.len() implies (
    #[trigger] l.fields[j]).name != (#[trigger] l.fields[k]).name by {
        if decls.len() > 0 {
            assert(decl_ok(decls, k));
        }
    }
}

proof fn lemma_find_field(fields: Seq<FieldView>, name: Seq<char>, k: int)
    requires
        0 <= k < fields.len(),
        fields[k].name == name,
        forall|j: int| 0 <= j < k ==> fields[j].name != name,
    ensures
        find_field(fields, name) == Some(k),
{
    reveal(find_field);
    let p = |c: int|
        0 <= c < fields.len() && fields[c].name == name && forall|j: int|
            0 <= j < c ==> fields[j].name != name;
    assert(p(k));
    let c = choose|c: int|
        0 <= c < fields.len() && fields[c].name == name && forall|j: int|
            0 <= j < c ==> fields[j].name != name;
    assert(p(c));
    if c > k {
        assert(fields[k].name != name);
    }
    if c < k {
        assert(fields[c].name != name);
    }
}

impl ParamLayout {
    /// The layout taken as fields, size and bytes is well formed.
    pub open spec fn wf(&self) -> bool {
        layout_wf(self@)
    }

    /// The first declaration whose name is not an identifier, or repeats
    /// an earlier one, as the error `new` gives for it.
    pub fn check(decls: &[(&str, Param)]) -> (r: Result<(), ParamError>)
        ensures
            match r {
                Ok(()) => decls_ok(decls_view(decls@)),
                Err(e) => exists|i: int|
                    0 <= i < decls@.len() && !decl_ok(decls_view(decls@), i) && (forall|j: int|
                        0 <= j < i ==> decl_ok(decls_view(decls@), j)) && e@ == decl_error(
                        decls_view(decls@),
                        i,
                    ),
            },
    {
        let ghost dv = decls_view(decls@);
        let mut i: usize = 0;
        while i < decls.len()
            invariant
                dv == decls_view(decls@),
                i <= decls@.len(),
                forall|k: int| 0 <= k < i ==> decl_ok(dv, k),
            decreases decls@.len() - i,
        {
            let name = decls[i].0;
            assert(name@ == dv[i as int].0);
            if !is_identifier(name) {
                assert(!decl_ok(dv, i as int));
                return Err(ParamError::BadIdentifier(string_of(name)));
            }
            let mut j: usize = 0;
            while j < i
                invariant
                    dv == decls_view(decls@),
                    j <= i < decls@.len(),
                    name@ == dv[i as int].0,
                    spec_is_identifier(dv[i as int].0),
                    forall|k: int| 0 <= k < i ==> decl_ok(dv, k),
                    forall|k: int| 0 <= k < j ==> dv[k].0 != dv[i as int].0,
                decreases i - j,
            {
                if str_eq(decls[j].0, name) {
                    assert(decls[j as int].0@ == dv[j as int].0);
                    assert(!decl_ok(dv, i as int));
                    return Err(ParamError::DuplicateName(string_of(name)));
                }
                j = j + 1;
            }
            i = i + 1;
        }
        Ok(())
    }

    /// Whether the struct for `decls` fits a `usize`, counted without
    /// overflow.
    pub fn fits(decls: &[(&str, Param)]) -> (r: bool)
        ensures
            r == layout_fits(decls_view(decls@)),
    {
        let ghost d = effective_decls(decls_view(decls@));
        let ghost tys = decl_types(d);
        let n: usize = if decls.len() == 0 { 1 } else { decls.len() };
        let mut cursor: u128 = 0;
        let mut widest: u128 = 1;
        let mut k: usize = 0;
        while k < n
            invariant
                d == effective_decls(decls_view(decls@)),
                tys == decl_types(d),
                n == tys.len(),
                decls@.len() == 0 ==> n == 1,
                decls@.len() > 0 ==> n == decls@.len(),
                k <= n,
                cursor == cursor_after(tys, k as nat),
                widest == max_align(tys, k as nat),
            decreases n - k,
        {
            let ty = if decls.len() == 0 { Param::Float } else { decls[k].1 };
            assert(ty == tys[k as int]);
            proof {
                lemma_cursor_bound(tys, k as nat);
                lemma_align_up(cursor as nat, param_size(ty));
            }
            let a = ty.align() as u128;
            let rem = cursor % a;
            let offset = if rem == 0 { cursor } else { cursor - rem + a };
            cursor = offset + ty.size() as u128;
            if a > widest {
                widest = a;
            }
            k = k + 1;
        }
        proof {
            lemma_cursor_bound(tys, n as nat);
            lemma_max_align(tys, n as nat);
            lemma_align_up(cursor as nat, widest as nat);
        }
        let rem = cursor % widest;
        let size = if rem == 0 { cursor } else { cursor - rem + widest };
        size <= usize::MAX as u128
    }

    /// Whether `new` can lay out `decls`: rejected declarations always can,
    /// accepted ones when their struct fits a `usize`.
    pub fn can_lay_out(decls: &[(&str, Param)]) -> (r: bool)
        ensures
            r == can_lay_out(decls_view(decls@)),
    {
        match Self::check(decls) {
            Ok(()) => Self::fits(decls),
            Err(_) => true,
        }
    }

    /// Lay out `decls` in order. An empty list becomes one `float _pad0`
    /// so the MSL struct is never empty. The first declaration whose name
    /// is not an identifier, or repeats an earlier one, is rejected.
    /// Accepted declarations must fit a `usize`, as every offset is one.
    pub fn new(decls: &[(&str, Param)]) -> (r: Result<ParamLayout, ParamError>)
        requires
            can_lay_out(decls_view(decls@)),
        ensures
            match r {
                Ok(l) => {
                    &&& forall|i: int|
                        0 <= i < decls@.len() ==> decl_ok(decls_view(decls@), i)
                    &&& l@ == spec_layout(decls_view(decls@))
                    &&& l.wf()
                },
                Err(e) => exists|i: int|
                    0 <= i < decls@.len() && !decl_ok(decls_view(decls@), i) && (forall|j: int|
                        0 <= j < i ==> decl_ok(decls_view(decls@), j)) && e@ == decl_error(
                        decls_view(decls@),
                        i,
                    ),
            },
    {
        let ghost dv = decls_view(decls@);
        match Self::check(decls) {
            Ok(()) => {},
            Err(e) => {
                return Err(e);
            },
        }
        let owned: Vec<(String, Param)> = if decls.len() == 0 {
            let mut v = Vec::new();
            v.push((string_of("_pad0"), Param::Float));
            v
        } else {
            let mut v: Vec<(String, Param)> = Vec::new();
            let mut k: usize = 0;
            while k < decls.len()
                invariant
                    dv == decls_view(decls@),
                    k <= decls@.len(),
                    v@.len() == k,
                    forall|m: int| 0 <= m < k ==> (#[trigger] v@[m]).0@ == dv[m].0 && v@[m].1 == dv[m].1,
                decreases decls@.len() - k,
            {
                v.push((string_of(decls[k].0), decls[k].1));
                k = k + 1;
            }
            v
        };
        let ghost d = effective_decls(dv);
        assert(owned@.len() == d.len());
        assert(forall|m: int| 0 <= m < d.len() ==> (#[trigger] owned@[m]).0@ == d[m].0 && owned@[m].1 == d[m].1);
        Self::lay_out(owned, Ghost(dv))
    }

    /// Lay out owned declarations that already passed the checks.
    fn lay_out(decls: Vec<(String, Param)>, Ghost(dv): Ghost<Seq<(Seq<char>, Param)>>) -> (r: Result<ParamLayout, ParamError>)
        requires
            layout_fits(dv),
            forall|i: int| 0 <= i < dv.len() ==> decl_ok(dv, i),
            decls@.len() == effective_decls(dv).len(),
            forall|m: int|
                0 <= m < decls@.len() ==> (#[trigger] decls@[m]).0@ == effective_decls(dv)[m].0
                    && decls@[m].1 == effective_decls(dv)[m].1,
        ensures
            r matches Ok(l) && l@ == spec_layout(dv) && l.wf(),
    {
        let ghost d = effective_decls(dv);
        let ghost tys = decl_types(d);
        let mut cursor: usize = 0;
        let mut widest: usize = 1;
        let mut fields: Vec<Field> = Vec::new();
        let mut k: usize = 0;
        let n = decls.len();
        while k < n
            invariant
                d == effective_decls(dv),
                tys == decl_types(d),
                n == decls@.len() == d.len() == tys.len(),
                struct_size(tys) <= usize::MAX,
                forall|m: int|
                    0 <= m < decls@.len() ==> (#[trigger] decls@[m]).0@ == d[m].0 && decls@[m].1
                        == d[m].1,
                k <= n,
                cursor == cursor_after(tys, k as nat),
                widest == max_align(tys, k as nat),
                fields@.len() == k,
                forall|m: int|
                    0 <= m < k ==> (#[trigger] fields@[m])@ == (FieldView {
                        name: d[m].0,
                        ty: d[m].1,
                        offset: field_offset(tys, m as nat),
                    }),
            decreases n - k,
        {
            let ty = decls[k].1;
            proof {
                lemma_align_up(cursor as nat, param_size(ty));
                lemma_cursor_mono(tys, (k + 1) as nat, n as nat);
                lemma_max_align(tys, n as nat);
                lemma_align_up(cursor_after(tys, n as nat), max_align(tys, n as nat));
            }
            let offset = align_up(cursor, ty.align());
            cursor = offset + ty.size();
            if ty.align() > widest {
                widest = ty.align();
            }
            let name = clone_string(&decls[k].0);
            fields.push(Field { name, ty, offset });
            k = k + 1;
        }
        proof {
            lemma_max_align(tys, n as nat);
            lemma_align_up(cursor as nat, widest as nat);
        }
        let size = align_up(cursor, widest);
        let bytes: Vec<u8> = zeros(size);
        let layout = ParamLayout { fields, size, bytes };
        assert(layout@.fields =~= layout_fields(d));
        assert(layout@.bytes =~= spec_layout(dv).bytes);
        proof {
            lemma_spec_layout_wf(dv);
        }
        Ok(layout)
    }

    /// The layout with no declarations: one `float _pad0`, four zero bytes.
    pub fn empty() -> (r: ParamLayout)
        ensures
            r@ == spec_layout(Seq::empty()),
            r.wf(),
    {
        let mut owned: Vec<(String, Param)> = Vec::new();
        owned.push((string_of("_pad0"), Param::Float));
        let ghost dv: Seq<(Seq<char>, Param)> = Seq::empty();
        assert(forall|m: int| 0 <= m < owned@.len() ==> (#[trigger] owned@[m]).0@ == effective_decls(dv)[m].0
                    && owned@[m].1 == effective_decls(dv)[m].1);
        proof {
            lemma_few_decls_fit(dv);
        }
        match Self::lay_out(owned, Ghost(dv)) {
            Ok(l) => l,
            Err(_) => {
                proof {
                    assert(false);
                }
                ParamLayout { fields: Vec::new(), size: 0, bytes: Vec::new() }
            },
        }
    }

    /// Store `value` for the field named `name`. The value's bytes land at
    /// the field's offset; every other byte stays as it was. An unknown
    /// name or a value of the wrong type changes nothing.
    pub fn set(&mut self, name: &str, value: ParamValue) -> (r: Result<(), ParamError>)
        requires
            old(self).wf(),
        ensures
            final(self).wf(),
            final(self)@.fields == old(self)@.fields,
            final(self)@.size == old(self)@.size,
            match find_field(old(self)@.fields, name@) {
                None => r matches Err(e) && e@ == ParamErrorView::UnknownName(name@)
                    && final(self)@ == old(self)@,
                Some(k) => {
                    let f = old(self)@.fields[k];
                    if f.ty == value_type(value) {
                        r is Ok && final(self)@.bytes == write_at(
                            old(self)@.bytes,
                            f.offset as int,
                            value_bytes(value),
                        )
                    } else {
                        r matches Err(e) && e@ == (ParamErrorView::TypeMismatch {
                            name: name@,
                            expected: f.ty,
                            got: value_type(value),
                        }) && final(self)@ == old(self)@
                    }
                },
            },
    {
        let found = self.position(name);
        let k = match found {
            None => {
                return Err(ParamError::UnknownName(string_of(name)));
            },
            Some(k) => k,
        };
        assert(self@.fields[k as int] == self.fields@[k as int]@);
        let fty = self.fields[k].ty;
        let offset = self.fields[k].offset;
        assert(self@.fields[k as int].ty == fty);
        if fty != value.ty() {
            assert(fty != value_type(value));
            return Err(
                ParamError::TypeMismatch { name: string_of(name), expected: fty, got: value.ty() },
            );
        }
        let vb = value.le_bytes();
        proof {
            reveal(layout_wf);
            let f = self@.fields[k as int];
            assert(self@.fields[k as int] == self.fields@[k as int]@);
            assert(f.offset + param_size(f.ty) <= self@.size);
        }
        self.write_bytes(offset, &vb);
        Ok(())
    }

    /// The index of the field named `name`, the first if several.
    fn position(&self, name: &str) -> (r: Option<usize>)
        ensures
            match find_field(self@.fields, name@) {
                None => r is None,
                Some(k) => r == Some(k as usize) && 0 <= k < self@.fields.len(),
            },
            r matches Some(k) ==> k < self.fields@.len() && find_field(self@.fields, name@) == Some(
                k as int,
            ),
            self@.fields.len() == self.fields@.len(),
    {
        reveal(find_field);
        let ghost fv = self@.fields;
        let mut k: usize = 0;
        while k < self.fields.len()
            invariant
                fv == self@.fields,
                self.fields@.len() == fv.len(),
                k <= fv.len(),
                forall|j: int| 0 <= j < k ==> fv[j].name != name@,
            decreases fv.len() - k,
        {
            if str_eq(self.fields[k].name.as_str(), name) {
                assert(fv[k as int].name == name@);
                proof {
                    lemma_find_field(fv, name@, k as int);
                }
                return Some(k);
            }
            k = k + 1;
        }
        None
    }

    /// Write `value` over the bytes starting at `offset`.
    fn write_bytes(&mut self, offset: usize, value: &Vec<u8>)
        requires
            old(self).wf(),
            offset + value@.len() <= old(self)@.size,
        ensures
            final(self).wf(),
            final(self)@.fields == old(self)@.fields,
            final(self)@.size == old(self)@.size,
            final(self)@.bytes == write_at(old(self)@.bytes, offset as int, value@),
    {
        proof {
            reveal(layout_wf);
        }
        let ghost before = self.bytes@;
        let mut j: usize = 0;
        while j < value.len()
            invariant
                offset + value@.len() <= self.bytes@.len(),
                self.bytes@.len() == before.len(),
                before == old(self)@.bytes,
                before.len() <= usize::MAX,
                j <= value@.len(),
                self.bytes@ == write_at(before, offset as int, value@.subrange(0, j as int)),
                self.fields == old(self).fields,
                self.size == old(self).size,
            decreases value@.len() - j,
        {
            self.bytes.set(offset + j, value[j]);
            j = j + 1;
            assert(self.bytes@ =~= write_at(before, offset as int, value@.subrange(0, j as int)));
        }
        assert(value@.subrange(0, value@.len() as int) =~= value@);
        proof {
            reveal(layout_wf);
        }
    }

    /// The `EffectParams` struct as MSL, one field per line.
    pub fn msl_struct(&self) -> (r: String)
        ensures
            r@ == msl_struct_text(self@.fields),
    {
        let mut out = String::from_str("struct EffectParams {\n");
        let mut k: usize = 0;
        while k < self.fields.len()
            invariant
                k <= self.fields@.len(),
                out@ == "struct EffectParams {\n"@ + msl_fields_text(
                    self@.fields.subrange(0, k as int),
                ),
            decreases self.fields@.len() - k,
        {
            out.append("    ");
            out.append(self.fields[k].ty.msl());
            out.append(" ");
            out.append(self.fields[k].name.as_str());
            out.append(";\n");
            proof {
                let s = self@.fields.subrange(0, k + 1);
                assert(s.drop_last() =~= self@.fields.subrange(0, k as int));
            }
            k = k + 1;
        }
        out.append("};\n");
        assert(self@.fields.subrange(0, self@.fields.len() as int) =~= self@.fields);
        out
    }

    /// The current bytes, for upload.
    pub fn bytes(&self) -> (r: &[u8])
        ensures
            r@ == self@.bytes,
    {
        self.bytes.as_slice()
    }

    /// The struct's size in bytes.
    pub fn size(&self) -> (r: usize)
        ensures
            r == self@.size,
    {
        self.size
    }

    /// The declared fields in struct order.
    pub fn fields(&self) -> (r: &[Field])
        ensures
            r@.map_values(|f: Field| f@) == self@.fields,
    {
        self.fields.as_slice()
    }
}

/// One MSL member line per field.
pub open spec fn msl_fields_text(fields: Seq<FieldView>) -> Seq<char>
    decreases fields.len(),
{
    if fields.len() == 0 {
        Seq::empty()
    } else {
        msl_fields_text(fields.drop_last()) + "    "@ + param_msl(fields.last().ty) + " "@
            + fields.last().name + ";\n"@
    }
}

/// The whole `EffectParams` struct as MSL.
pub open spec fn msl_struct_text(fields: Seq<FieldView>) -> Seq<char> {
    "struct EffectParams {\n"@ + msl_fields_text(fields) + "};\n"@
}

/// An owned copy of `s`.
fn string_of(s: &str) -> (r: String)
    ensures
        r@ == s@,
{
    String::from_str(s)
}

fn clone_string(s: &String) -> (r: String)
    ensures
        r@ == s@,
{
    s.clone()
}

/// `n` zero bytes.
fn zeros(n: usize) -> (r: Vec<u8>)
    ensures
        r@ == Seq::new(n as nat, |i: int| 0u8),
{
    let mut v: Vec<u8> = Vec::new();
    let mut i: usize = 0;
    while i < n
        invariant
            i <= n,
            v@ == Seq::new(i as nat, |k: int| 0u8),
        decreases n - i,
    {
        v.push(0u8);
        i = i + 1;
        assert(v@ =~= Seq::new(i as nat, |k: int| 0u8));
    }
    v
}


/// The bytes field `k` of a layout occupies.
pub open spec fn field_bytes(l: LayoutView, k: int) -> Seq<u8> {
    l.bytes.subrange(
        l.fields[k].offset as int,
        (l.fields[k].offset + param_size(l.fields[k].ty)) as int,
    )
}

/// What a value writes fits the field of its type.
pub proof fn lemma_value_fits(v: ParamValue)
    ensures
        value_bytes(v).len() <= param_size(value_type(v)),
{
    reveal(value_bytes);
}

/// A write reads back, and touches no other field: after `set` stores `v`
/// in field `k` of a well-formed layout, the field starts with the bytes of
/// `v`, and every other field holds the bytes it held before.
pub proof fn lemma_set_reads_back(l: LayoutView, k: int, j: int, v: ParamValue)
    requires
        layout_wf(l),
        0 <= k < l.fields.len(),
        0 <= j < l.fields.len(),
        j != k,
        value_type(v) == l.fields[k].ty,
    ensures
        ({
            let w = LayoutView {
                bytes: write_at(l.bytes, l.fields[k].offset as int, value_bytes(v)),
                ..l
            };
            &&& w.bytes.subrange(
                l.fields[k].offset as int,
                (l.fields[k].offset + value_bytes(v).len()) as int,
            ) == value_bytes(v)
            &&& field_bytes(w, j) == field_bytes(l, j)
        }),
{
    reveal(layout_wf);
    lemma_value_fits(v);
    let f = l.fields[k];
    let g = l.fields[j];
    let vb = value_bytes(v);
    let w = write_at(l.bytes, f.offset as int, vb);
    assert(f.offset + param_size(f.ty) <= l.size);
    assert(g.offset + param_size(g.ty) <= l.size);
    if j < k {
        assert(g.offset + param_size(g.ty) <= f.offset);
    } else {
        assert(f.offset + param_size(f.ty) <= g.offset);
    }
    assert(w.len() == l.bytes.len());
    assert(w.subrange(f.offset as int, (f.offset + vb.len()) as int) =~= vb);
    assert(w.subrange(g.offset as int, (g.offset + param_size(g.ty)) as int) =~= l.bytes.subrange(
        g.offset as int,
        (g.offset + param_size(g.ty)) as int,
    ));
}


/// The WGSL type of `p`.
pub open spec fn param_wgsl(p: Param) -> Seq<char> {
    match p {
        Param::Float => "f32"@,
        Param::Float2 => "vec2<f32>"@,
        Param::Float3 => "vec3<f32>"@,
        Param::Float4 => "vec4<f32>"@,
        Param::Int => "i32"@,
    }
}

/// The GLSL type of `p`.
pub open spec fn param_glsl(p: Param) -> Seq<char> {
    match p {
        Param::Float => "float"@,
        Param::Float2 => "vec2"@,
        Param::Float3 => "vec3"@,
        Param::Float4 => "vec4"@,
        Param::Int => "int"@,
    }
}

fn wgsl_name(p: Param) -> (r: &'static str)
    ensures
        r@ == param_wgsl(p),
{
    match p {
        Param::Float => "f32",
        Param::Float2 => "vec2<f32>",
        Param::Float3 => "vec3<f32>",
        Param::Float4 => "vec4<f32>",
        Param::Int => "i32",
    }
}

fn glsl_name(p: Param) -> (r: &'static str)
    ensures
        r@ == param_glsl(p),
{
    match p {
        Param::Float => "float",
        Param::Float2 => "vec2",
        Param::Float3 => "vec3",
        Param::Float4 => "vec4",
        Param::Int => "int",
    }
}

/// One WGSL member line per field, each sized as Metal sizes it so a
/// float3 takes 16 bytes there too.
pub open spec fn wgsl_fields_text(fields: Seq<FieldView>) -> Seq<char>
    decreases fields.len(),
{
    if fields.len() == 0 {
        Seq::empty()
    } else {
        wgsl_fields_text(fields.drop_last()) + "    @size("@ + decimal(param_size(fields.last().ty))
            + ") "@ + fields.last().name + ": "@ + param_wgsl(fields.last().ty) + ",\n"@
    }
}

/// The `EffectParams` struct as WGSL.
pub open spec fn wgsl_struct_text(fields: Seq<FieldView>) -> Seq<char> {
    "struct EffectParams {\n"@ + wgsl_fields_text(fields) + "};\n"@
}

/// One GLSL member line per field; a float3 is followed by a `float`
/// named `_pad` and its index, which std140 needs to place the next
/// member where Metal does.
pub open spec fn glsl_fields_text(fields: Seq<FieldView>) -> Seq<char>
    decreases fields.len(),
{
    if fields.len() == 0 {
        Seq::empty()
    } else {
        let k = (fields.len() - 1) as nat;
        glsl_fields_text(fields.drop_last()) + "    "@ + param_glsl(fields.last().ty) + " "@
            + fields.last().name + ";\n"@ + (if fields.last().ty == Param::Float3 {
            "    float _pad"@ + decimal(k) + ";\n"@
        } else {
            Seq::empty()
        })
    }
}

/// The params as a GLSL uniform block at set 0, binding 2, whose members
/// read as globals.
pub open spec fn glsl_block_text(fields: Seq<FieldView>) -> Seq<char> {
    "layout(std140, set = 0, binding = 2) uniform EffectParams {\n"@ + glsl_fields_text(fields)
        + "};\n"@
}

impl ParamLayout {
    /// The `EffectParams` struct as WGSL, one field per line.
    pub fn wgsl_struct(&self) -> (r: String)
        requires
            self.wf(),
        ensures
            r@ == wgsl_struct_text(self@.fields),
    {
        let mut out = String::from_str("struct EffectParams {\n");
        let mut k: usize = 0;
        while k < self.fields.len()
            invariant
                k <= self.fields@.len(),
                out@ == "struct EffectParams {\n"@ + wgsl_fields_text(
                    self@.fields.subrange(0, k as int),
                ),
            decreases self.fields@.len() - k,
        {
            assert(self@.fields[k as int] == self.fields@[k as int]@);
            out.append("    @size(");
            push_decimal(&mut out, self.fields[k].ty.size());
            out.append(") ");
            out.append(self.fields[k].name.as_str());
            out.append(": ");
            out.append(wgsl_name(self.fields[k].ty));
            out.append(",\n");
            proof {
                let s = self@.fields.subrange(0, k + 1);
                assert(s.drop_last() =~= self@.fields.subrange(0, k as int));
            }
            k = k + 1;
        }
        out.append("};\n");
        assert(self@.fields.subrange(0, self@.fields.len() as int) =~= self@.fields);
        out
    }

    /// The params as a GLSL std140 uniform block, one member per line.
    pub fn glsl_block(&self) -> (r: String)
        requires
            self.wf(),
        ensures
            r@ == glsl_block_text(self@.fields),
    {
        let mut out = String::from_str("layout(std140, set = 0, binding = 2) uniform EffectParams {\n");
        let mut k: usize = 0;
        while k < self.fields.len()
            invariant
                k <= self.fields@.len(),
                out@ == "layout(std140, set = 0, binding = 2) uniform EffectParams {\n"@
                    + glsl_fields_text(self@.fields.subrange(0, k as int)),
            decreases self.fields@.len() - k,
        {
            assert(self@.fields[k as int] == self.fields@[k as int]@);
            out.append("    ");
            out.append(glsl_name(self.fields[k].ty));
            out.append(" ");
            out.append(self.fields[k].name.as_str());
            out.append(";\n");
            if self.fields[k].ty == Param::Float3 {
                out.append("    float _pad");
                push_decimal(&mut out, k);
                out.append(";\n");
            }
            proof {
                let s = self@.fields.subrange(0, k + 1);
                assert(s.drop_last() =~= self@.fields.subrange(0, k as int));
            }
            k = k + 1;
        }
        out.append("};\n");
        assert(self@.fields.subrange(0, self@.fields.len() as int) =~= self@.fields);
        out
    }
}

} // verus!
