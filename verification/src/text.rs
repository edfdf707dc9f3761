//! Names: their ordering and the column names derived from them.

use vstd::prelude::*;
use vstd::string::*;
use vstd::utf8::*;

verus! {

/// Lexicographic order on byte strings.
pub open spec fn bytes_less(a: Seq<u8>, b: Seq<u8>) -> bool
    decreases a.len(),
{
    if b.len() == 0 {
        false
    } else if a.len() == 0 {
        true
    } else if a[0] != b[0] {
        a[0] < b[0]
    } else {
        bytes_less(a.drop_first(), b.drop_first())
    }
}

/// The order of names: lexicographic by the bytes of their UTF-8 encoding.
pub open spec fn name_less(a: Seq<char>, b: Seq<char>) -> bool {
    bytes_less(encode_utf8(a), encode_utf8(b))
}

/// No byte string precedes itself.
pub proof fn lemma_bytes_less_irreflexive(a: Seq<u8>)
    ensures
        !bytes_less(a, a),
    decreases a.len(),
{
    if a.len() > 0 {
        lemma_bytes_less_irreflexive(a.drop_first());
    }
}

/// The order of byte strings is transitive.
pub proof fn lemma_bytes_less_transitive(a: Seq<u8>, b: Seq<u8>, c: Seq<u8>)
    requires
        bytes_less(a, b),
        bytes_less(b, c),
    ensures
        bytes_less(a, c),
    decreases a.len(),
{
    if a.len() > 0 && b.len() > 0 && c.len() > 0 && a[0] == b[0] && b[0] == c[0] {
        lemma_bytes_less_transitive(a.drop_first(), b.drop_first(), c.drop_first());
    }
}

/// Two byte strings of which neither precedes the other are the same.
pub proof fn lemma_bytes_less_connected(a: Seq<u8>, b: Seq<u8>)
    requires
        !bytes_less(a, b),
        !bytes_less(b, a),
    ensures
        a == b,
    decreases a.len(),
{
    if a.len() > 0 && b.len() > 0 {
        lemma_bytes_less_connected(a.drop_first(), b.drop_first());
        assert(b =~= seq![b[0]] + b.drop_first());
    }
}

/// No name precedes itself.
pub proof fn lemma_name_less_irreflexive(a: Seq<char>)
    ensures
        !name_less(a, a),
{
    lemma_bytes_less_irreflexive(encode_utf8(a));
}

/// The order of names is transitive.
pub proof fn lemma_name_less_transitive(a: Seq<char>, b: Seq<char>, c: Seq<char>)
    requires
        name_less(a, b),
        name_less(b, c),
    ensures
        name_less(a, c),
{
    lemma_bytes_less_transitive(encode_utf8(a), encode_utf8(b), encode_utf8(c));
}

/// Two names of which neither precedes the other are the same name.
pub proof fn lemma_name_less_connected(a: Seq<char>, b: Seq<char>)
    requires
        !name_less(a, b),
        !name_less(b, a),
    ensures
        a == b,
{
    lemma_bytes_less_connected(encode_utf8(a), encode_utf8(b));
    encode_utf8_decode_utf8(a);
    encode_utf8_decode_utf8(b);
}

/// Whether `a` comes strictly before `b` in the order of names.
pub fn name_precedes(a: &String, b: &String) -> (r: bool)
    ensures
        r == name_less(a@, b@),
{
    let x = a.as_str().as_bytes();
    let y = b.as_str().as_bytes();
    let mut i: usize = 0;
    assert(x@.skip(0) =~= x@ && y@.skip(0) =~= y@);
    while i < x.len() && i < y.len()
        invariant
            i <= x.len(),
            i <= y.len(),
            x@ == encode_utf8(a@),
            y@ == encode_utf8(b@),
            bytes_less(x@, y@) == bytes_less(x@.skip(i as int), y@.skip(i as int)),
        decreases x.len() - i,
    {
        assert(x@.skip(i as int).drop_first() =~= x@.skip(i + 1));
        assert(y@.skip(i as int).drop_first() =~= y@.skip(i + 1));
        if x[i] != y[i] {
            return x[i] < y[i];
        }
        i += 1;
    }
    i < y.len()
}

/// Whether two names are the same.
pub fn same_name(a: &String, b: &String) -> (r: bool)
    ensures
        r == (a@ == b@),
{
    *a == *b
}

/// The concatenation of two strings.
pub fn joined(a: &str, b: &str) -> (r: String)
    ensures
        r@ == a@ + b@,
{
    let mut s = String::from_str(a);
    s.append(b);
    s
}

/// Name of the fixed column that holds the program's choice for a witness column.
pub open spec fn fixed_name(name: Seq<char>) -> Seq<char> {
    "p_"@ + name
}

/// Name of the flag by which assignment register `assign` writes into register `reg`.
pub open spec fn write_flag_name(assign: Seq<char>, reg: Seq<char>) -> Seq<char> {
    "reg_write_"@ + assign + "_"@ + reg
}

/// Name of the coefficient with which register `reg` is read into `assign`.
pub open spec fn read_coefficient_name(assign: Seq<char>, reg: Seq<char>) -> Seq<char> {
    "read_"@ + assign + "_"@ + reg
}

/// Name of the constant term read into assignment register `assign`.
pub open spec fn const_name(assign: Seq<char>) -> Seq<char> {
    assign + "_const"@
}

/// Name of the flag that lets assignment register `assign` read a free input.
pub open spec fn read_free_name(assign: Seq<char>) -> Seq<char> {
    assign + "_read_free"@
}

/// Name of the witness that supplies free inputs to assignment register `assign`.
pub open spec fn free_value_name(assign: Seq<char>) -> Seq<char> {
    assign + "_free_value"@
}

/// Name of the flag that marks the rows on which instruction `instr` runs.
pub open spec fn instruction_flag_name(instr: Seq<char>) -> Seq<char> {
    "instr_"@ + instr
}

/// Name of the column that carries literal parameter `param` of instruction `instr`.
pub open spec fn param_column_name(instr: Seq<char>, param: Seq<char>) -> Seq<char> {
    "instr_"@ + instr + "_param_"@ + param
}

/// The name of the fixed column of a witness column; see [`fixed_name`].
pub fn make_fixed_name(name: &String) -> (r: String)
    ensures
        r@ == fixed_name(name@),
{
    joined("p_", name.as_str())
}

/// The name of a write flag; see [`write_flag_name`].
pub fn make_write_flag_name(assign: &String, reg: &String) -> (r: String)
    ensures
        r@ == write_flag_name(assign@, reg@),
{
    let mut s = joined("reg_write_", assign.as_str());
    s.append("_");
    s.append(reg.as_str());
    s
}

/// The name of a read coefficient; see [`read_coefficient_name`].
pub fn make_read_coefficient_name(assign: &String, reg: &String) -> (r: String)
    ensures
        r@ == read_coefficient_name(assign@, reg@),
{
    let mut s = joined("read_", assign.as_str());
    s.append("_");
    s.append(reg.as_str());
    s
}

/// The name of the constant term of an assignment register; see [`const_name`].
pub fn make_const_name(assign: &String) -> (r: String)
    ensures
        r@ == const_name(assign@),
{
    joined(assign.as_str(), "_const")
}

/// The name of the free-input flag of an assignment register; see [`read_free_name`].
pub fn make_read_free_name(assign: &String) -> (r: String)
    ensures
        r@ == read_free_name(assign@),
{
    joined(assign.as_str(), "_read_free")
}

/// The name of the free-input witness of an assignment register; see
/// [`free_value_name`].
pub fn make_free_value_name(assign: &String) -> (r: String)
    ensures
        r@ == free_value_name(assign@),
{
    joined(assign.as_str(), "_free_value")
}

/// The name of the flag of an instruction; see [`instruction_flag_name`].
pub fn make_instruction_flag_name(instr: &String) -> (r: String)
    ensures
        r@ == instruction_flag_name(instr@),
{
    joined("instr_", instr.as_str())
}

/// The name of the column of a literal parameter; see [`param_column_name`].
pub fn make_param_column_name(instr: &String, param: &String) -> (r: String)
    ensures
        r@ == param_column_name(instr@, param@),
{
    let mut s = joined("instr_", instr.as_str());
    s.append("_param_");
    s.append(param.as_str());
    s
}

} // verus!
