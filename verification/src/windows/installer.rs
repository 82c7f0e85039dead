//! What kind of Windows program a file is, by binary signatures rather
//! than by extension: a `.exe` may be an Inno Setup or NSIS installer or a
//! portable program, and that choice drives the whole install flow.
//!
//! The file is read by the application, in chunks; a marker scan carries
//! the end of each chunk over to the next, so that a marker straddling
//! two chunks is still found.
use vstd::prelude::*;

verus! {

#[derive(Debug, Clone, Copy, PartialEq, Eq, Structural)]
pub enum InstallerKind {
    /// Inno Setup installer (WinMerge, Git for Windows...).
    Inno,
    /// NSIS installer (Notepad++...).
    Nsis,
    /// Windows Installer (.msi, an OLE container).
    Msi,
    /// PE executable with no installer marker: a portable program.
    PortableExe,
    /// Neither PE nor MSI.
    Unknown,
}

/// Magic of an OLE compound document (.msi files are OLE containers).
pub open spec fn ole_magic() -> Seq<u8> {
    seq![0xD0u8, 0xCFu8, 0x11u8, 0xE0u8, 0xA1u8, 0xB1u8, 0x1Au8, 0xE1u8]
}

/// "MZ", the start of every PE executable.
pub open spec fn mz() -> Seq<u8> {
    seq![0x4Du8, 0x5Au8]
}

/// What the first bytes of a file (at most 8, as one read gave them)
/// decide: an MSI, not a program at all, or a PE to be scanned for
/// installer markers (`None`).
pub open spec fn head_kind(head: Seq<u8>) -> Option<InstallerKind> {
    if head.len() >= 8 && head.take(8) == ole_magic() {
        Some(InstallerKind::Msi)
    } else if head.len() < 2 || head.take(2) != mz() {
        Some(InstallerKind::Unknown)
    } else {
        None
    }
}

pub fn classify_head(head: &[u8]) -> (r: Option<InstallerKind>)
    ensures
        r == head_kind(head@),
{
    let magic: [u8; 8] = [0xD0u8, 0xCFu8, 0x11u8, 0xE0u8, 0xA1u8, 0xB1u8, 0x1Au8, 0xE1u8];
    if head.len() >= 8 {
        let mut same = true;
        let mut i: usize = 0;
        while i < 8
            invariant
                i <= 8,
                head@.len() >= 8,
                magic@ == ole_magic(),
                same == (forall|k: int| 0 <= k < i ==> head@[k] == ole_magic()[k]),
            decreases 8 - i,
        {
            if head[i] != magic[i] {
                same = false;
            }
            i = i + 1;
        }
        if same {
            assert(head@.take(8) =~= ole_magic());
            return Some(InstallerKind::Msi);
        }
        proof {
            if head@.take(8) == ole_magic() {
                assert forall|k: int| 0 <= k < 8 implies head@[k] == ole_magic()[k] by {
                    assert(head@.take(8)[k] == head@[k]);
                }
            }
        }
    }
    if head.len() < 2 || head[0] != 0x4Du8 || head[1] != 0x5Au8 {
        proof {
            if head@.len() >= 2 && head@.take(2) == mz() {
                assert(head@.take(2)[0] == head@[0] && head@.take(2)[1] == head@[1]);
            }
        }
        return Some(InstallerKind::Unknown);
    }
    assert(head@.take(2) =~= mz());
    None
}

/// The markers of an Inno Setup installer.
pub fn inno_markers() -> (r: Vec<Vec<u8>>)
    ensures
        r@.len() == 2,
        r@[0]@ == "Inno Setup"@.map_values(|c: char| c as u8),
        r@[1]@ == "JR.Inno.Setup"@.map_values(|c: char| c as u8),
{
    let a = ascii_bytes("Inno Setup");
    let b = ascii_bytes("JR.Inno.Setup");
    let mut r: Vec<Vec<u8>> = Vec::new();
    r.push(a);
    r.push(b);
    r
}

/// The markers of an NSIS installer.
pub fn nsis_markers() -> (r: Vec<Vec<u8>>)
    ensures
        r@.len() == 2,
        r@[0]@ == "Nullsoft.NSIS"@.map_values(|c: char| c as u8),
        r@[1]@ == "NullsoftInst"@.map_values(|c: char| c as u8),
{
    let a = ascii_bytes("Nullsoft.NSIS");
    let b = ascii_bytes("NullsoftInst");
    let mut r: Vec<Vec<u8>> = Vec::new();
    r.push(a);
    r.push(b);
    r
}

/// The bytes of an ASCII text, one per character.
fn ascii_bytes(s: &str) -> (r: Vec<u8>)
    ensures
        r@ == s@.map_values(|c: char| c as u8),
{
    let cs = crate::text::chars_of(s);
    let mut r: Vec<u8> = Vec::new();
    let mut i: usize = 0;
    while i < cs.len()
        invariant
            i <= cs.len(),
            cs@ == s@,
            r@ == s@.take(i as int).map_values(|c: char| c as u8),
        decreases cs.len() - i,
    {
        r.push(cs[i] as u8);
        i = i + 1;
        assert(r@ =~= s@.take(i as int).map_values(|c: char| c as u8));
    }
    assert(s@.take(s@.len() as int) =~= s@);
    r
}

/// The kind of a PE executable once its markers have been looked for:
/// Inno markers first, then NSIS ones.
pub fn kind_from_markers(inno: bool, nsis: bool) -> (r: InstallerKind)
    ensures
        inno ==> r == InstallerKind::Inno,
        !inno && nsis ==> r == InstallerKind::Nsis,
        !inno && !nsis ==> r == InstallerKind::PortableExe,
{
    if inno {
        InstallerKind::Inno
    } else if nsis {
        InstallerKind::Nsis
    } else {
        InstallerKind::PortableExe
    }
}

// ------------------------------------------------------------------ //
// Marker scan over a stream of chunks                                 //
// ------------------------------------------------------------------ //

/// `needle` occurs at position `i` of `hay`.
pub open spec fn occurs_at(hay: Seq<u8>, needle: Seq<u8>, i: int) -> bool {
    0 <= i && i + needle.len() <= hay.len() && hay.subrange(i, i + needle.len()) == needle
}

/// `needle` (not empty) occurs somewhere in `hay`.
pub open spec fn occurs_in(hay: Seq<u8>, needle: Seq<u8>) -> bool {
    needle.len() > 0 && exists|i: int| #[trigger] occurs_at(hay, needle, i)
}

/// One of the `needles` occurs in `hay`.
pub open spec fn any_occurs(hay: Seq<u8>, needles: Seq<Seq<u8>>) -> bool {
    exists|k: int| 0 <= k < needles.len() && #[trigger] occurs_in(hay, needles[k])
}

/// The last `n` bytes of `s` (all of `s` when it is shorter).
pub open spec fn tail(s: Seq<u8>, n: nat) -> Seq<u8> {
    if s.len() <= n {
        s
    } else {
        s.skip(s.len() - n)
    }
}

/// The chunks, one after the other.
pub open spec fn flatten(cs: Seq<Seq<u8>>) -> Seq<u8>
    decreases cs.len(),
{
    if cs.len() == 0 {
        Seq::empty()
    } else {
        flatten(cs.drop_last()) + cs.last()
    }
}

/// What the scan reports on the `j`-th chunk: a marker in what was carried
/// over from the chunks before it, followed by the chunk.
pub open spec fn found_at(cs: Seq<Seq<u8>>, j: int, needles: Seq<Seq<u8>>, overlap: nat) -> bool {
    any_occurs(tail(flatten(cs.take(j)), overlap) + cs[j], needles)
}

/// The length of the longest needle.
pub open spec fn longest(needles: Seq<Seq<u8>>) -> nat
    decreases needles.len(),
{
    if needles.len() == 0 {
        0
    } else {
        let rest = longest(needles.drop_last());
        if needles.last().len() > rest {
            needles.last().len()
        } else {
            rest
        }
    }
}

proof fn lemma_longest(needles: Seq<Seq<u8>>)
    ensures
        forall|k: int| 0 <= k < needles.len() ==> (#[trigger] needles[k]).len() <= longest(needles),
    decreases needles.len(),
{
    if needles.len() > 0 {
        lemma_longest(needles.drop_last());
        assert forall|k: int| 0 <= k < needles.len() implies (#[trigger] needles[k]).len() <= longest(needles) by {
            if k < needles.len() - 1 {
                assert(needles[k] == needles.drop_last()[k]);
            }
        }
    }
}

/// An occurrence that ends inside `chunk` is still whole in what the scan
/// looks at: the carried-over tail of what came before, then the chunk.
proof fn lemma_straddle(prev: Seq<u8>, chunk: Seq<u8>, needle: Seq<u8>, overlap: nat, i: int)
    requires
        0 < needle.len() <= overlap,
        occurs_at(prev + chunk, needle, i),
        i + needle.len() > prev.len(),
    ensures
        occurs_in(tail(prev, overlap) + chunk, needle),
{
    let t = tail(prev, overlap);
    let d = prev.len() - t.len();
    let w = t + chunk;
    assert(w =~= (prev + chunk).skip(d));
    assert(w.subrange(i - d, i - d + needle.len()) =~= (prev + chunk).subrange(i, i + needle.len()));
    assert(occurs_at(w, needle, i - d));
}

/// What the scan looks at for a chunk is a stretch of the whole stream.
proof fn lemma_found_is_real(cs: Seq<Seq<u8>>, j: int, needle: Seq<u8>, overlap: nat)
    requires
        0 <= j < cs.len(),
        occurs_in(tail(flatten(cs.take(j)), overlap) + cs[j], needle),
    ensures
        occurs_in(flatten(cs), needle),
    decreases cs.len(),
{
    if j == cs.len() - 1 {
        assert(cs.take(j) =~= cs.drop_last());
        let prev = flatten(cs.take(j));
        let t = tail(prev, overlap);
        let d = prev.len() - t.len();
        let w = t + cs[j];
        let i = choose|i: int| #[trigger] occurs_at(w, needle, i);
        assert(w =~= flatten(cs).skip(d));
        assert(w.subrange(i, i + needle.len()) =~= flatten(cs).subrange(i + d, i + d + needle.len()));
        assert(occurs_at(flatten(cs), needle, i + d));
    } else {
        let front = cs.drop_last();
        assert(front.take(j) =~= cs.take(j));
        assert(front[j] == cs[j]);
        lemma_found_is_real(front, j, needle, overlap);
        let i = choose|i: int| #[trigger] occurs_at(flatten(front), needle, i);
        assert(flatten(cs).subrange(i, i + needle.len()) =~= flatten(front).subrange(i, i + needle.len()));
        assert(occurs_at(flatten(cs), needle, i));
    }
}

/// Every occurrence in the whole stream is seen on the chunk where it ends.
proof fn lemma_occurrence_is_found(cs: Seq<Seq<u8>>, needle: Seq<u8>, overlap: nat, i: int)
    requires
        0 < needle.len() <= overlap,
        occurs_at(flatten(cs), needle, i),
    ensures
        exists|j: int|
            0 <= j < cs.len() && #[trigger] occurs_in(tail(flatten(cs.take(j)), overlap) + cs[j], needle),
    decreases cs.len(),
{
    let front = cs.drop_last();
    let prev = flatten(front);
    let j = cs.len() - 1;
    assert(cs.take(j) =~= front);
    if i + needle.len() > prev.len() {
        lemma_straddle(prev, cs.last(), needle, overlap, i);
        assert(occurs_in(tail(flatten(cs.take(j)), overlap) + cs[j], needle));
    } else {
        assert(prev.subrange(i, i + needle.len()) =~= flatten(cs).subrange(i, i + needle.len()));
        lemma_occurrence_is_found(front, needle, overlap, i);
        let k = choose|k: int|
            0 <= k < front.len() && #[trigger] occurs_in(tail(flatten(front.take(k)), overlap) + front[k], needle);
        assert(front.take(k) =~= cs.take(k));
        assert(front[k] == cs[k]);
        assert(occurs_in(tail(flatten(cs.take(k)), overlap) + cs[k], needle));
    }
}

/// Scanning a stream chunk by chunk, carrying over as many bytes as the
/// longest marker, reports a marker on some chunk exactly when one occurs
/// in the whole stream, wherever the chunk boundaries fall.
pub proof fn lemma_scan_complete(cs: Seq<Seq<u8>>, needles: Seq<Seq<u8>>, overlap: nat)
    requires
        forall|k: int| 0 <= k < needles.len() ==> 0 < (#[trigger] needles[k]).len() <= overlap,
    ensures
        (exists|j: int| 0 <= j < cs.len() && #[trigger] found_at(cs, j, needles, overlap)) <==> any_occurs(
            flatten(cs),
            needles,
        ),
{
    if exists|j: int| 0 <= j < cs.len() && #[trigger] found_at(cs, j, needles, overlap) {
        let j = choose|j: int| 0 <= j < cs.len() && #[trigger] found_at(cs, j, needles, overlap);
        let k = choose|k: int|
            0 <= k < needles.len() && #[trigger] occurs_in(tail(flatten(cs.take(j)), overlap) + cs[j], needles[k]);
        lemma_found_is_real(cs, j, needles[k], overlap);
    }
    if any_occurs(flatten(cs), needles) {
        let k = choose|k: int| 0 <= k < needles.len() && #[trigger] occurs_in(flatten(cs), needles[k]);
        let i = choose|i: int| #[trigger] occurs_at(flatten(cs), needles[k], i);
        lemma_occurrence_is_found(cs, needles[k], overlap, i);
        let j = choose|j: int|
            0 <= j < cs.len() && #[trigger] occurs_in(tail(flatten(cs.take(j)), overlap) + cs[j], needles[k]);
        assert(found_at(cs, j, needles, overlap));
    }
}

/// `needle` (not empty) occurs in `hay`.
pub fn contains_bytes(hay: &Vec<u8>, needle: &Vec<u8>) -> (r: bool)
    ensures
        r == occurs_in(hay@, needle@),
{
    if needle.len() == 0 || needle.len() > hay.len() {
        return false;
    }
    let n = needle.len();
    let mut i: usize = 0;
    while i <= hay.len() - n
        invariant
            0 < n == needle@.len() <= hay@.len(),
            n <= hay.len(),
            i <= hay@.len() - n + 1,
            forall|p: int| 0 <= p < i ==> !#[trigger] occurs_at(hay@, needle@, p),
        decreases hay.len() - i,
    {
        let mut same = true;
        let mut k: usize = 0;
        while k < n
            invariant
                0 < n == needle@.len(),
                i + n <= hay.len(),
                k <= n,
                same == (forall|m: int| 0 <= m < k ==> hay@[i + m] == needle@[m]),
            decreases n - k,
        {
            if hay[i + k] != needle[k] {
                same = false;
            }
            k = k + 1;
        }
        if same {
            assert(hay@.subrange(i as int, i + n) =~= needle@);
            assert(occurs_at(hay@, needle@, i as int));
            return true;
        }
        proof {
            if occurs_at(hay@, needle@, i as int) {
                assert forall|m: int| 0 <= m < n implies hay@[i + m] == needle@[m] by {
                    assert(hay@.subrange(i as int, i + n)[m] == hay@[i + m]);
                }
            }
        }
        i = i + 1;
    }
    false
}

/// The state of a marker scan: the markers looked for and the end of the
/// stream read so far.
pub struct MarkerScan {
    needles: Vec<Vec<u8>>,
    overlap: usize,
    carry: Vec<u8>,
}

impl MarkerScan {
    pub closed spec fn needles(&self) -> Seq<Seq<u8>> {
        self.needles@.map_values(|n: Vec<u8>| n@)
    }

    pub closed spec fn overlap(&self) -> nat {
        self.overlap as nat
    }

    /// What is carried over to the next chunk.
    pub closed spec fn carry(&self) -> Seq<u8> {
        self.carry@
    }

    /// A scan for `needles`, before any chunk.
    pub fn new(needles: Vec<Vec<u8>>) -> (r: Self)
        ensures
            r.needles() == needles@.map_values(|n: Vec<u8>| n@),
            r.overlap() == longest(needles@.map_values(|n: Vec<u8>| n@)),
            r.carry() == Seq::<u8>::empty(),
            forall|k: int| 0 <= k < r.needles().len() ==> (#[trigger] r.needles()[k]).len() <= r.overlap(),
    {
        let ghost ns = needles@.map_values(|n: Vec<u8>| n@);
        let mut overlap: usize = 0;
        let mut i: usize = 0;
        while i < needles.len()
            invariant
                i <= needles.len(),
                ns == needles@.map_values(|n: Vec<u8>| n@),
                overlap as nat == longest(ns.take(i as int)),
            decreases needles.len() - i,
        {
            assert(ns.take(i + 1).drop_last() =~= ns.take(i as int));
            if needles[i].len() > overlap {
                overlap = needles[i].len();
            }
            i = i + 1;
        }
        assert(ns.take(ns.len() as int) =~= ns);
        proof {
            lemma_longest(ns);
        }
        MarkerScan { needles, overlap, carry: Vec::new() }
    }

    /// Looks at the next chunk of the stream: reports whether a marker
    /// occurs in the carried-over bytes followed by the chunk, and keeps
    /// the last `overlap` bytes of them for the next chunk.
    pub fn step(&mut self, chunk: &[u8]) -> (found: bool)
        ensures
            found == any_occurs(old(self).carry() + chunk@, old(self).needles()),
            final(self).carry() == tail(old(self).carry() + chunk@, old(self).overlap()),
            final(self).needles() == old(self).needles(),
            final(self).overlap() == old(self).overlap(),
    {
        let mut window: Vec<u8> = Vec::new();
        let mut i: usize = 0;
        while i < self.carry.len()
            invariant
                i <= self.carry@.len(),
                window@ == self.carry@.take(i as int),
            decreases self.carry.len() - i,
        {
            window.push(self.carry[i]);
            i = i + 1;
            assert(window@ =~= self.carry@.take(i as int));
        }
        assert(self.carry@.take(self.carry@.len() as int) =~= self.carry@);
        let ghost carried = window@;
        let mut j: usize = 0;
        while j < chunk.len()
            invariant
                j <= chunk@.len(),
                window@ == carried + chunk@.take(j as int),
            decreases chunk.len() - j,
        {
            window.push(chunk[j]);
            j = j + 1;
            assert(window@ =~= carried + chunk@.take(j as int));
        }
        assert(chunk@.take(chunk@.len() as int) =~= chunk@);
        let ghost ns = self.needles@.map_values(|n: Vec<u8>| n@);
        let mut found = false;
        let mut k: usize = 0;
        while k < self.needles.len()
            invariant
                k <= self.needles@.len(),
                ns == self.needles@.map_values(|n: Vec<u8>| n@),
                found == (exists|m: int| 0 <= m < k && #[trigger] occurs_in(window@, ns[m])),
            decreases self.needles.len() - k,
        {
            assert(ns[k as int] == self.needles@[k as int]@);
            if contains_bytes(&window, &self.needles[k]) {
                found = true;
            }
            k = k + 1;
        }
        // keep the end of the window for a marker across the boundary
        let keep: usize = if window.len() < self.overlap { window.len() } else { self.overlap };
        let start = window.len() - keep;
        let mut carry: Vec<u8> = Vec::new();
        let mut m: usize = start;
        while m < window.len()
            invariant
                start <= m <= window@.len(),
                carry@ == window@.subrange(start as int, m as int),
            decreases window.len() - m,
        {
            carry.push(window[m]);
            m = m + 1;
            assert(carry@ =~= window@.subrange(start as int, m as int));
        }
        assert(carry@ =~= tail(window@, self.overlap as nat));
        self.carry = carry;
        found
    }
}

// ------------------------------------------------------------------ //
// PE header                                                           //
// ------------------------------------------------------------------ //

/// A little-endian 32-bit number.
pub open spec fn le_u32(b0: u8, b1: u8, b2: u8, b3: u8) -> nat {
    b0 as nat + 256 * (b1 as nat) + 65536 * (b2 as nat) + 16777216 * (b3 as nat)
}

/// Offset of the PE header (e_lfanew) read from the first 0x40 bytes of a
/// file; `None` when they are missing or not a PE's.
pub fn pe_header_offset(head: &[u8]) -> (r: Option<u64>)
    ensures
        (head@.len() >= 0x40 && head@.take(2) == mz()) ==> r == Some(
            le_u32(head@[0x3C], head@[0x3D], head@[0x3E], head@[0x3F]) as u64,
        ),
        !(head@.len() >= 0x40 && head@.take(2) == mz()) ==> r is None,
{
    if head.len() < 0x40 || head[0] != 0x4Du8 || head[1] != 0x5Au8 {
        proof {
            if head@.len() >= 0x40 && head@.take(2) == mz() {
                assert(head@.take(2)[0] == head@[0] && head@.take(2)[1] == head@[1]);
            }
        }
        return None;
    }
    assert(head@.take(2) =~= mz());
    let v: u64 = head[0x3C] as u64 + 256 * (head[0x3D] as u64) + 65536 * (head[0x3E] as u64) + 16777216 * (
    head[0x3F] as u64);
    Some(v)
}

/// Bitness from the 6 bytes at the PE header ("PE\0\0" then the COFF
/// Machine field): `Some(true)` for i386, `Some(false)` for x86-64 and
/// ARM64, `None` otherwise.
pub open spec fn pe_bitness(pe: Seq<u8>) -> Option<bool> {
    if pe.len() < 6 || pe.take(4) != seq![0x50u8, 0x45u8, 0u8, 0u8] {
        None
    } else {
        let machine = pe[4] as nat + 256 * (pe[5] as nat);
        if machine == 0x014C {
            Some(true)
        } else if machine == 0x8664 || machine == 0xAA64 {
            Some(false)
        } else {
            None
        }
    }
}

pub fn pe_machine_bitness(pe: &[u8]) -> (r: Option<bool>)
    ensures
        r == pe_bitness(pe@),
{
    if pe.len() < 6 || pe[0] != 0x50u8 || pe[1] != 0x45u8 || pe[2] != 0u8 || pe[3] != 0u8 {
        proof {
            if pe@.len() >= 6 && pe@.take(4) == seq![0x50u8, 0x45u8, 0u8, 0u8] {
                assert(pe@.take(4)[0] == pe@[0] && pe@.take(4)[1] == pe@[1]);
                assert(pe@.take(4)[2] == pe@[2] && pe@.take(4)[3] == pe@[3]);
            }
        }
        return None;
    }
    assert(pe@.take(4) =~= seq![0x50u8, 0x45u8, 0u8, 0u8]);
    let machine: u32 = pe[4] as u32 + 256 * (pe[5] as u32);
    if machine == 0x014C {
        Some(true)
    } else if machine == 0x8664 || machine == 0xAA64 {
        Some(false)
    } else {
        None
    }
}

} // verus!
