use vstd::prelude::*;

verus! {

#[verifier::external_type_specification]
#[verifier::external_body]
#[verifier::reject_recursive_types(T)]
pub struct ExElemWriter<T>(tagger::ElemWriter<T>);

/// The text that a markup writer over an owned string buffer has
/// produced so far.
pub uninterp spec fn written(w: tagger::ElemWriter<String>) -> Seq<char>;

/// Text that stays inside one markup token: none of the five characters
/// that the writer's escaping layer would rewrite.
pub open spec fn xml_safe(s: Seq<char>) -> bool {
    forall|i: int|
        0 <= i < s.len() ==> s[i] != '<' && s[i] != '>' && s[i] != '&' && s[i] != '"' && s[i]
            != '\''
}

/// What one self-closing element looks like in the output: the writer
/// puts the tag, a space, then a space and the attribute text, then a
/// spaced self-closing bracket.
pub open spec fn single_markup(tag: Seq<char>, attrs: Seq<char>) -> Seq<char> {
    seq!['<'] + tag + seq![' ', ' '] + attrs + seq![' ', '/', '>']
}

/// What one element with text content looks like in the output.
pub open spec fn elem_markup(tag: Seq<char>, attrs: Seq<char>, content: Seq<char>) -> Seq<char> {
    seq!['<'] + tag + seq![' ', ' '] + attrs + seq![' ', '>', ' '] + content + seq!['<', '/'] + tag
        + seq!['>']
}

/// What raw text injection looks like in the output: a space, then the
/// text itself, unaltered.
pub open spec fn raw_markup(s: Seq<char>) -> Seq<char> {
    seq![' '] + s
}

/// Relies on tagger::new: it wraps the writer without writing anything,
/// so a writer over a fresh string has produced nothing.
#[verifier::external_body]
pub fn fresh_writer() -> (w: tagger::ElemWriter<String>)
    ensures
        written(w) == Seq::<char>::empty(),
{
    tagger::new(String::new())
}

/// Relies on tagger::ElemWriter::single: it writes `<`, the tag, a
/// space, runs the attribute closure (here one put_raw_escapable, which
/// writes a space and its argument verbatim), then ` />`. Writes into a
/// `String` cannot fail, so the unwrap never fires.
#[verifier::external_body]
pub fn put_single(w: &mut tagger::ElemWriter<String>, tag: &str, attrs: &str)
    requires
        xml_safe(tag@),
    ensures
        written(*final(w)) == written(*old(w)) + single_markup(tag@, attrs@),
{
    w.single(tag, |a| a.put_raw_escapable(attrs)).unwrap();
}

/// Relies on tagger::ElemWriter::elem and ElementBridge::build: elem
/// writes `<`, the tag, a space, the attribute closure's output (a space
/// and the attribute text verbatim), then ` >`; build runs the inner
/// closure (a space and the content verbatim) and closes with `</`, the
/// tag, `>`. Writes into a `String` cannot fail.
#[verifier::external_body]
pub fn put_elem(w: &mut tagger::ElemWriter<String>, tag: &str, attrs: &str, content: &str)
    requires
        xml_safe(tag@),
    ensures
        written(*final(w)) == written(*old(w)) + elem_markup(tag@, attrs@, content@),
{
    let bridge = w.elem(tag, |a| {
        a.put_raw_escapable(attrs)?;
        Ok(())
    }).unwrap();
    bridge.build(|inner| inner.put_raw_escapable(content)).unwrap();
}

/// Relies on tagger::ElemWriter::put_raw_escapable: it writes a space
/// and then its argument verbatim. Writes into a `String` cannot fail.
#[verifier::external_body]
pub fn put_raw(w: &mut tagger::ElemWriter<String>, s: &str)
    ensures
        written(*final(w)) == written(*old(w)) + raw_markup(s@),
{
    w.put_raw_escapable(s).unwrap();
}

/// Relies on tagger::ElemWriter::into_writer: it hands back the wrapped
/// string buffer unchanged.
#[verifier::external_body]
pub fn take_output(w: tagger::ElemWriter<String>) -> (r: String)
    ensures
        r@ == written(w),
{
    w.into_writer()
}

} // verus!
