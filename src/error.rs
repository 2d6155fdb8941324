use vstd::prelude::*;
use vstd::utf8::encode_utf8;

verus! {

/// The text that separates two layers of a context chain.
pub open spec fn separator() -> Seq<char> {
    ": "@
}

/// The description of a chain of layers, outermost first, each followed
/// by the next one after a separator.
pub open spec fn describe(layers: Seq<Seq<char>>) -> Seq<char>
    decreases layers.len(),
{
    if layers.len() == 0 {
        Seq::empty()
    } else if layers.len() == 1 {
        layers[0]
    } else {
        describe(layers.drop_last()) + separator() + layers.last()
    }
}

/// Wrapping a chain in one more layer puts that layer, and a separator,
/// before the description of the chain.
pub proof fn lemma_context_description(label: Seq<char>, chain: Seq<Seq<char>>)
    requires
        chain.len() > 0,
    ensures
        describe(seq![label] + chain) == label + separator() + describe(chain),
    decreases chain.len(),
{
    let whole = seq![label] + chain;
    if chain.len() == 1 {
        assert(whole.drop_last() =~= seq![label]);
        assert(describe(seq![label]) == label);
        assert(describe(chain) == chain[0]);
        assert(whole.last() == chain[0]);
    } else {
        lemma_context_description(label, chain.drop_last());
        assert(whole.drop_last() =~= seq![label] + chain.drop_last());
        assert(whole.last() == chain.last());
        assert(label + separator() + describe(chain.drop_last()) + separator() + chain.last()
            =~= label + separator() + (describe(chain.drop_last()) + separator() + chain.last()));
    }
}

/// UTF-8 encoding distributes over concatenation.
pub proof fn lemma_encode_utf8_concat(a: Seq<char>, b: Seq<char>)
    ensures
        encode_utf8(a + b) == encode_utf8(a) + encode_utf8(b),
    decreases a.len(),
{
    if a.len() == 0 {
        assert(a + b =~= b);
    } else {
        lemma_encode_utf8_concat(a.drop_first(), b);
        assert((a + b).drop_first() =~= a.drop_first() + b);
        assert((a + b)[0] == a[0]);
    }
}

/// An owned failure description: a chain of context layers, outermost
/// first, whose last layer is the underlying cause.
#[allow(non_camel_case_types)]
#[derive(Debug)]
pub struct udpsocket_error {
    layers: Vec<String>,
}

impl View for udpsocket_error {
    type V = Seq<Seq<char>>;

    closed spec fn view(&self) -> Seq<Seq<char>> {
        self.layers@.map_values(|s: String| s@)
    }
}

impl udpsocket_error {
    /// A chain ends in its cause, so it is never empty. Both ways of
    /// making an error establish this.
    pub open spec fn has_cause(&self) -> bool {
        self@.len() > 0
    }

    /// An error whose chain holds the cause alone.
    pub fn from_cause(cause: String) -> (r: udpsocket_error)
        ensures
            r@ == seq![cause@],
            r.has_cause(),
    {
        let mut layers: Vec<String> = Vec::new();
        layers.push(cause);
        let r = udpsocket_error { layers };
        assert(r@ =~= seq![cause@]);
        r
    }

    /// Wraps the error in one more layer, which becomes the outermost.
    pub fn context(self, label: &str) -> (r: udpsocket_error)
        ensures
            r@ == seq![label@] + self@,
            r.has_cause(),
    {
        let mut layers = self.layers;
        layers.insert(0, label.to_owned());
        let r = udpsocket_error { layers };
        assert(r@ =~= seq![label@] + self@);
        r
    }

    /// The UTF-8 bytes of the description of the whole chain.
    pub fn text(&self) -> (r: Vec<u8>)
        ensures
            r@ == encode_utf8(describe(self@)),
    {
        let ghost chain = self@;
        let sep: &[u8] = ": ".as_bytes();
        let mut out: Vec<u8> = Vec::new();
        let mut i: usize = 0;
        assert(chain.take(0) =~= Seq::<Seq<char>>::empty());
        while i < self.layers.len()
            invariant
                chain == self@,
                0 <= i <= self.layers@.len(),
                sep@ == encode_utf8(separator()),
                out@ == encode_utf8(describe(chain.take(i as int))),
            decreases self.layers@.len() - i,
        {
            let layer: &[u8] = self.layers[i].as_str().as_bytes();
            proof {
                let prefix = chain.take(i as int);
                let next = chain.take(i as int + 1);
                assert(next.drop_last() =~= prefix);
                assert(next.last() == self.layers@[i as int]@);
                if i > 0 {
                    lemma_encode_utf8_concat(describe(prefix), separator());
                    lemma_encode_utf8_concat(describe(prefix) + separator(), next.last());
                } else {
                    assert(next =~= seq![next.last()]);
                }
            }
            if i > 0 {
                append_bytes(&mut out, sep);
            }
            append_bytes(&mut out, layer);
            i = i + 1;
        }
        assert(chain.take(i as int) =~= chain);
        out
    }

    /// Writes as much of the description as fits into `buf`, from its
    /// start, and returns how many bytes were written. The bytes past that
    /// count are left as they were; a buffer of length zero receives
    /// nothing. The error itself is not consumed.
    pub fn print(&self, buf: &mut [u8]) -> (n: usize)
        ensures
            n as int == min_len(encode_utf8(describe(self@)).len(), old(buf)@.len()),
            n <= old(buf)@.len(),
            final(buf)@.len() == old(buf)@.len(),
            final(buf)@ == encode_utf8(describe(self@)).take(n as int) + old(buf)@.skip(n as int),
    {
        let text = self.text();
        copy_prefix(&text, buf)
    }
}

/// The smaller of two lengths.
pub open spec fn min_len(a: nat, b: nat) -> int {
    if a <= b { a as int } else { b as int }
}

/// Appends the bytes of `bytes` to `out`.
fn append_bytes(out: &mut Vec<u8>, bytes: &[u8])
    ensures
        final(out)@ == old(out)@ + bytes@,
{
    let mut k: usize = 0;
    while k < bytes.len()
        invariant
            0 <= k <= bytes@.len(),
            out@ == old(out)@ + bytes@.take(k as int),
        decreases bytes@.len() - k,
    {
        out.push(bytes[k]);
        k = k + 1;
        assert(out@ =~= old(out)@ + bytes@.take(k as int));
    }
    assert(bytes@.take(k as int) =~= bytes@);
}

/// Copies the longest prefix of `text` that fits into the start of `buf`
/// and returns its length.
fn copy_prefix(text: &[u8], buf: &mut [u8]) -> (n: usize)
    ensures
        n as int == min_len(text@.len(), old(buf)@.len()),
        final(buf)@.len() == old(buf)@.len(),
        final(buf)@ == text@.take(n as int) + old(buf)@.skip(n as int),
{
    let n: usize = if text.len() <= buf.len() { text.len() } else { buf.len() };
    let mut k: usize = 0;
    while k < n
        invariant
            n as int == min_len(text@.len(), old(buf)@.len()),
            0 <= k <= n,
            buf@.len() == old(buf)@.len(),
            buf@ == text@.take(k as int) + old(buf)@.skip(k as int),
        decreases n - k,
    {
        buf[k] = text[k];
        k = k + 1;
        assert(buf@ =~= text@.take(k as int) + old(buf)@.skip(k as int));
    }
    n
}

} // verus!
