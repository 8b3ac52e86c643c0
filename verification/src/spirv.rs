use vstd::prelude::*;

verus! {

/// First word of every shader module in the intermediate binary form.
pub const MODULE_MAGIC: u32 = 0x07230203;

/// Number of header words before the first instruction.
pub const HEADER_WORDS: usize = 5;

/// Opcode of the instruction that declares an entry point; its operands
/// are the execution model, the function id and the entry point's name as
/// a nul-terminated little-endian byte string packed into words.
pub const OP_ENTRY_POINT: u32 = 15;

/// Opcode of the instruction that decorates a target id; a decoration of
/// kind `DECORATION_BINDING` carries the declared resource slot.
pub const OP_DECORATE: u32 = 71;

/// Decoration kind marking a resource-binding slot declaration.
pub const DECORATION_BINDING: u32 = 33;

/// High half of an instruction's first word: its total length in words.
pub open spec fn inst_word_count(x: u32) -> int {
    (x / 65536) as int
}

/// Low half of an instruction's first word: its opcode.
pub open spec fn inst_opcode(x: u32) -> int {
    (x % 65536) as int
}

/// The words from `i` on parse as a chain of instructions, each at least
/// one word long, ending exactly at the end of the module.
pub open spec fn insts_well_formed_from(w: Seq<u32>, i: int) -> bool
    decreases w.len() - i,
    when 0 <= i <= w.len()
{
    if i == w.len() {
        true
    } else if inst_word_count(w[i]) < 1 || i + inst_word_count(w[i]) > w.len() {
        false
    } else {
        insts_well_formed_from(w, i + inst_word_count(w[i]))
    }
}

/// A well-formed module: magic number, full header, and a clean chain of
/// instructions after it.
pub open spec fn module_well_formed(w: Seq<u32>) -> bool {
    &&& w.len() >= HEADER_WORDS
    &&& w[0] == MODULE_MAGIC
    &&& insts_well_formed_from(w, HEADER_WORDS as int)
}

/// The four bytes of one word, least significant first.
pub open spec fn word_bytes(x: u32) -> Seq<u8> {
    seq![
        (x % 256) as u8,
        ((x / 256) % 256) as u8,
        ((x / 65536) % 256) as u8,
        ((x / 16777216) % 256) as u8,
    ]
}

/// The byte stream of a word sequence, least significant byte of each
/// word first.
pub open spec fn words_bytes(ws: Seq<u32>) -> Seq<u8>
    decreases ws.len(),
{
    if ws.len() == 0 {
        Seq::empty()
    } else {
        word_bytes(ws[0]) + words_bytes(ws.skip(1))
    }
}

/// The bytes before the first nul: how a packed literal string is read.
pub open spec fn until_nul(b: Seq<u8>) -> Seq<u8>
    decreases b.len(),
{
    if b.len() == 0 {
        Seq::empty()
    } else if b[0] == 0 {
        Seq::empty()
    } else {
        seq![b[0]] + until_nul(b.skip(1))
    }
}

/// The names of every entry point declared from word `i` on, in order of
/// declaration.
pub open spec fn entry_point_names_from(w: Seq<u32>, i: int) -> Seq<Seq<u8>>
    decreases w.len() - i,
    when 0 <= i <= w.len()
{
    if i == w.len() {
        Seq::empty()
    } else if inst_word_count(w[i]) < 1 || i + inst_word_count(w[i]) > w.len() {
        Seq::empty()
    } else {
        let wc = inst_word_count(w[i]);
        let rest = entry_point_names_from(w, i + wc);
        if inst_opcode(w[i]) == OP_ENTRY_POINT && wc >= 4 {
            seq![until_nul(words_bytes(w.subrange(i + 3, i + wc)))] + rest
        } else {
            rest
        }
    }
}

/// The resource slots declared by binding decorations from word `i` on,
/// in order of declaration.
pub open spec fn binding_slots_from(w: Seq<u32>, i: int) -> Seq<u32>
    decreases w.len() - i,
    when 0 <= i <= w.len()
{
    if i == w.len() {
        Seq::empty()
    } else if inst_word_count(w[i]) < 1 || i + inst_word_count(w[i]) > w.len() {
        Seq::empty()
    } else {
        let wc = inst_word_count(w[i]);
        let rest = binding_slots_from(w, i + wc);
        if inst_opcode(w[i]) == OP_DECORATE && wc == 4 && w[i + 2] == DECORATION_BINDING {
            seq![w[i + 3]] + rest
        } else {
            rest
        }
    }
}

/// The entry-point names a whole module declares.
pub open spec fn module_entry_points(w: Seq<u32>) -> Seq<Seq<u8>> {
    entry_point_names_from(w, HEADER_WORDS as int)
}

/// The resource slots a whole module declares.
pub open spec fn module_binding_slots(w: Seq<u32>) -> Seq<u32> {
    binding_slots_from(w, HEADER_WORDS as int)
}

/// Appending one word appends exactly its four bytes to the byte stream.
proof fn lemma_words_bytes_push(ws: Seq<u32>, x: u32)
    ensures
        words_bytes(ws.push(x)) == words_bytes(ws) + word_bytes(x),
    decreases ws.len(),
{
    if ws.len() == 0 {
        assert(ws.push(x)[0] == x);
        assert(ws.push(x).skip(1) =~= Seq::<u32>::empty());
        assert(words_bytes(ws) == Seq::<u8>::empty());
        assert(words_bytes(ws.push(x).skip(1)) == Seq::<u8>::empty());
        assert(words_bytes(ws.push(x)) == word_bytes(x) + words_bytes(ws.push(x).skip(1)));
        assert(words_bytes(ws.push(x)) =~= words_bytes(ws) + word_bytes(x));
    } else {
        assert(ws.push(x)[0] == ws[0]);
        assert(ws.push(x).skip(1) =~= ws.skip(1).push(x));
        lemma_words_bytes_push(ws.skip(1), x);
        assert(words_bytes(ws.push(x)) == word_bytes(ws[0]) + words_bytes(ws.skip(1).push(x)));
        assert(words_bytes(ws) == word_bytes(ws[0]) + words_bytes(ws.skip(1)));
        assert(words_bytes(ws.push(x)) =~= words_bytes(ws) + word_bytes(x));
    }
}

/// When the first `p` bytes are non-nul and byte `p` (or the end) stops
/// the scan, the literal string is exactly the first `p` bytes.
proof fn lemma_until_nul_is_prefix(b: Seq<u8>, p: int)
    requires
        0 <= p <= b.len(),
        forall|k: int| 0 <= k < p ==> b[k] != 0,
        p == b.len() || b[p] == 0,
    ensures
        until_nul(b) == b.take(p),
    decreases b.len(),
{
    if b.len() == 0 {
        assert(until_nul(b) =~= b.take(p));
    } else if p == 0 {
        assert(until_nul(b) =~= b.take(0));
    } else {
        assert(b[0] != 0);
        assert(forall|k: int| 0 <= k < p - 1 ==> b.skip(1)[k] != 0);
        lemma_until_nul_is_prefix(b.skip(1), p - 1);
        assert(until_nul(b) =~= b.take(p));
    }
}

/// Decodes the packed literal string held in words `from .. to`.
pub(crate) fn decode_packed_string(w: &Vec<u32>, from: usize, to: usize) -> (out: Vec<u8>)
    requires
        from <= to <= w@.len(),
    ensures
        out@ == until_nul(words_bytes(w@.subrange(from as int, to as int))),
{
    let mut bytes: Vec<u8> = Vec::new();
    let mut k = from;
    proof {
        assert(w@.subrange(from as int, from as int) =~= Seq::<u32>::empty());
        assert(bytes@ =~= words_bytes(w@.subrange(from as int, from as int)));
    }
    while k < to
        invariant
            from <= k <= to <= w@.len(),
            bytes@ == words_bytes(w@.subrange(from as int, k as int)),
        decreases to - k,
    {
        let x = w[k];
        bytes.push((x % 256) as u8);
        bytes.push(((x / 256) % 256) as u8);
        bytes.push(((x / 65536) % 256) as u8);
        bytes.push(((x / 16777216) % 256) as u8);
        proof {
            lemma_words_bytes_push(w@.subrange(from as int, k as int), w@[k as int]);
            assert(w@.subrange(from as int, k + 1) =~= w@.subrange(from as int, k as int).push(w@[k as int]));
            assert(bytes@ =~= words_bytes(w@.subrange(from as int, k as int)) + word_bytes(w@[k as int]));
        }
        k = k + 1;
    }
    let total = bytes.len();
    let mut p: usize = 0;
    while p < total && bytes[p] != 0
        invariant
            p <= total,
            total == bytes@.len(),
            forall|j: int| 0 <= j < p ==> bytes@[j] != 0,
        decreases total - p,
    {
        p = p + 1;
    }
    proof {
        lemma_until_nul_is_prefix(bytes@, p as int);
    }
    bytes.truncate(p);
    bytes
}

} // verus!
