//! The capability descriptor a module publishes: for each skeleton kind, the
//! animations it offers and the exported routine behind each.
use vstd::prelude::*;
use vstd::string::StringExecFns;
use vstd::utf8::{
    decode_utf8, decode_utf8_encode_utf8, encode_utf8, encode_utf8_decode_utf8, encode_utf8_valid_utf8,
    valid_utf8,
};
use crate::skeleton::SkeletonTy;
use crate::wire::{get_u32, get_u64, le32, le64, lemma_le32_injective, lemma_le64_injective, put_u32, put_u64};

verus! {

/// An animation as `(name, exported symbol)`, viewed as characters.
pub type AnimView = (Seq<char>, Seq<char>);

/// A skeleton kind and its animations, viewed as characters.
pub type EntryView = (SkeletonTy, Seq<AnimView>);

/// Version of the descriptor layout published by this library.
pub const METADATA_VERSION: u32 = 0;

/// The capability descriptor.
#[derive(Debug)]
pub struct Metadata {
    pub version: u32,
    pub skeletons: Vec<(SkeletonTy, Vec<(String, String)>)>,
}

pub open spec fn anim_view(a: (String, String)) -> AnimView {
    (a.0@, a.1@)
}

pub open spec fn anims_view(v: Vec<(String, String)>) -> Seq<AnimView> {
    v@.map_values(|a: (String, String)| anim_view(a))
}

pub open spec fn entry_view(e: (SkeletonTy, Vec<(String, String)>)) -> EntryView {
    (e.0, anims_view(e.1))
}

impl View for Metadata {
    type V = (u32, Seq<EntryView>);

    open spec fn view(&self) -> (u32, Seq<EntryView>) {
        (self.version, self.skeletons@.map_values(|e: (SkeletonTy, Vec<(String, String)>)| entry_view(e)))
    }
}

/// The symbol of the first animation called `name` in `anims`.
pub open spec fn find_anim(anims: Seq<AnimView>, name: Seq<char>) -> Option<Seq<char>>
    decreases anims.len(),
{
    if anims.len() == 0 {
        None
    } else if anims[0].0 == name {
        Some(anims[0].1)
    } else {
        find_anim(anims.drop_first(), name)
    }
}

/// The symbol of the first animation called `name` among the entries for `ty`,
/// entries taken in order.
pub open spec fn find_symbol(es: Seq<EntryView>, ty: SkeletonTy, name: Seq<char>) -> Option<Seq<char>>
    decreases es.len(),
{
    if es.len() == 0 {
        None
    } else if es[0].0 == ty && find_anim(es[0].1, name) is Some {
        find_anim(es[0].1, name)
    } else {
        find_symbol(es.drop_first(), ty, name)
    }
}

/// The descriptor of this library's animation module: layout version 0 and,
/// for the Character skeleton, the one animation `idle` exported as `character_idle`.
pub open spec fn character_metadata() -> (u32, Seq<EntryView>) {
    (0, seq![(SkeletonTy::Character, seq![("idle"@, "character_idle"@)])])
}

/// Builds the module's capability descriptor.
pub fn metadata() -> (r: Metadata)
    ensures
        r@ == character_metadata(),
{
    let anims = vec![(String::from_str("idle"), String::from_str("character_idle"))];
    let r = Metadata { version: METADATA_VERSION, skeletons: vec![(SkeletonTy::Character, anims)] };
    assert(anims_view(anims) =~= seq![("idle"@, "character_idle"@)]);
    assert(r@.1 =~= character_metadata().1);
    r
}

impl Metadata {
    /// The exported symbol of the animation `name` for skeleton kind `ty`,
    /// or `None` where the descriptor does not offer it.
    pub fn symbol(&self, ty: SkeletonTy, name: &String) -> (r: Option<String>)
        ensures
            match r {
                Some(s) => find_symbol(self@.1, ty, name@) == Some(s@),
                None => find_symbol(self@.1, ty, name@) is None,
            },
    {
        let ghost es = self@.1;
        let mut i: usize = 0;
        assert(es.subrange(0, es.len() as int) =~= es);
        while i < self.skeletons.len()
            invariant
                es == self@.1,
                es.len() == self.skeletons@.len(),
                i <= es.len(),
                find_symbol(es, ty, name@) == find_symbol(es.subrange(i as int, es.len() as int), ty, name@),
            decreases self.skeletons.len() - i,
        {
            let ghost rest = es.subrange(i as int, es.len() as int);
            assert(rest.drop_first() =~= es.subrange(i + 1, es.len() as int));
            let entry = &self.skeletons[i];
            assert(es[i as int] == entry_view(*entry));
            if entry.0 == ty {
                let ghost anims = anims_view(entry.1);
                let mut j: usize = 0;
                assert(anims.subrange(0, anims.len() as int) =~= anims);
                while j < entry.1.len()
                    invariant
                        anims == anims_view(entry.1),
                        anims.len() == entry.1@.len(),
                        i < es.len(),
                        es == self@.1,
                        rest == es.subrange(i as int, es.len() as int),
                        es[i as int] == entry_view(*entry),
                        entry.0 == ty,
                        find_symbol(es, ty, name@) == find_symbol(rest, ty, name@),
                        j <= anims.len(),
                        find_anim(anims, name@) == find_anim(anims.subrange(j as int, anims.len() as int), name@),
                    decreases entry.1.len() - j,
                {
                    let ghost tail = anims.subrange(j as int, anims.len() as int);
                    assert(tail.drop_first() =~= anims.subrange(j + 1, anims.len() as int));
                    assert(anims[j as int] == anim_view(entry.1@[j as int]));
                    if entry.1[j].0 == *name {
                        assert(find_anim(tail, name@) == Some(anims[j as int].1));
                        assert(rest[0] == es[i as int]);
                        assert(find_symbol(rest, ty, name@) == find_anim(anims, name@));
                        return Some(entry.1[j].1.clone());
                    }
                    j += 1;
                }
                assert(anims.subrange(anims.len() as int, anims.len() as int) =~= Seq::<AnimView>::empty());
            }
            i += 1;
        }
        assert(es.subrange(es.len() as int, es.len() as int) =~= Seq::<EntryView>::empty());
        None
    }
}

/// Bytes of a string: its UTF-8 length as a 64-bit word, then its UTF-8 bytes.
pub open spec fn str_bytes(s: Seq<char>) -> Seq<u8> {
    le64(encode_utf8(s).len() as u64) + encode_utf8(s)
}

/// Bytes of an animation list, each as name then symbol, without a count.
pub open spec fn anims_bytes(a: Seq<AnimView>) -> Seq<u8>
    decreases a.len(),
{
    if a.len() == 0 {
        seq![]
    } else {
        anims_bytes(a.drop_last()) + str_bytes(a.last().0) + str_bytes(a.last().1)
    }
}

/// Tag of a skeleton kind on the wire.
pub open spec fn kind_tag(t: SkeletonTy) -> u32 {
    match t {
        SkeletonTy::Character => 0,
    }
}

/// Bytes of one entry: kind tag, animation count, animations.
pub open spec fn entry_bytes(e: EntryView) -> Seq<u8> {
    le32(kind_tag(e.0)) + le64(e.1.len() as u64) + anims_bytes(e.1)
}

/// Bytes of an entry list, without a count.
pub open spec fn entries_bytes(es: Seq<EntryView>) -> Seq<u8>
    decreases es.len(),
{
    if es.len() == 0 {
        seq![]
    } else {
        entries_bytes(es.drop_last()) + entry_bytes(es.last())
    }
}

/// Bytes of a descriptor: version, entry count, entries.
pub open spec fn metadata_bytes(m: (u32, Seq<EntryView>)) -> Seq<u8> {
    le32(m.0) + le64(m.1.len() as u64) + entries_bytes(m.1)
}

/// Appends the bytes of `s`.
fn put_str(out: &mut Vec<u8>, s: &String)
    ensures
        final(out)@ == old(out)@ + str_bytes(s@),
{
    let b = s.as_str().as_bytes();
    put_u64(out, b.len() as u64);
    let ghost mid = out@;
    let mut i: usize = 0;
    while i < b.len()
        invariant
            b@ == encode_utf8(s@),
            mid == old(out)@ + le64(b@.len() as u64),
            i <= b@.len(),
            out@ == mid + b@.subrange(0, i as int),
        decreases b.len() - i,
    {
        out.push(b[i]);
        i += 1;
        assert(out@ =~= mid + b@.subrange(0, i as int));
    }
    assert(b@.subrange(0, b@.len() as int) =~= b@);
    assert(out@ =~= old(out)@ + str_bytes(s@));
}

/// Appends the bytes of an animation list, without its count.
fn put_anims(out: &mut Vec<u8>, v: &Vec<(String, String)>)
    ensures
        final(out)@ == old(out)@ + anims_bytes(anims_view(*v)),
{
    let ghost a = anims_view(*v);
    let mut i: usize = 0;
    while i < v.len()
        invariant
            a == anims_view(*v),
            a.len() == v@.len(),
            i <= v.len(),
            out@ == old(out)@ + anims_bytes(a.subrange(0, i as int)),
        decreases v.len() - i,
    {
        assert(a.subrange(0, i + 1).drop_last() =~= a.subrange(0, i as int));
        assert(a[i as int] == anim_view(v@[i as int]));
        put_str(out, &v[i].0);
        put_str(out, &v[i].1);
        i += 1;
        assert(out@ =~= old(out)@ + anims_bytes(a.subrange(0, i as int)));
    }
    assert(a.subrange(0, a.len() as int) =~= a);
}

impl Metadata {
    /// The descriptor's bytes.
    pub fn encode(&self) -> (r: Vec<u8>)
        ensures
            r@ == metadata_bytes(self@),
    {
        let ghost es = self@.1;
        let mut out: Vec<u8> = Vec::new();
        put_u32(&mut out, self.version);
        put_u64(&mut out, self.skeletons.len() as u64);
        let ghost mid = out@;
        let mut i: usize = 0;
        while i < self.skeletons.len()
            invariant
                es == self@.1,
                es.len() == self.skeletons@.len(),
                mid == le32(self.version) + le64(es.len() as u64),
                i <= es.len(),
                out@ == mid + entries_bytes(es.subrange(0, i as int)),
            decreases self.skeletons.len() - i,
        {
            assert(es.subrange(0, i + 1).drop_last() =~= es.subrange(0, i as int));
            let entry = &self.skeletons[i];
            assert(es[i as int] == entry_view(*entry));
            let tag: u32 = match entry.0 {
                SkeletonTy::Character => 0,
            };
            put_u32(&mut out, tag);
            put_u64(&mut out, entry.1.len() as u64);
            put_anims(&mut out, &entry.1);
            i += 1;
            assert(out@ =~= mid + entries_bytes(es.subrange(0, i as int)));
        }
        assert(es.subrange(0, es.len() as int) =~= es);
        assert(out@ =~= metadata_bytes(self@));
        out
    }
}

/// `p` stands in `b` from position `pos` on.
pub open spec fn prefix_at(p: Seq<u8>, b: Seq<u8>, pos: int) -> bool {
    0 <= pos && pos + p.len() <= b.len() && b.subrange(pos, pos + p.len()) == p
}

pub proof fn lemma_prefix_at_split(p: Seq<u8>, q: Seq<u8>, b: Seq<u8>, pos: int)
    requires
        prefix_at(p + q, b, pos),
    ensures
        prefix_at(p, b, pos),
        prefix_at(q, b, pos + p.len()),
{
    let w = b.subrange(pos, pos + p.len() + q.len());
    assert(w == p + q);
    assert(b.subrange(pos, pos + p.len()) =~= w.subrange(0, p.len() as int));
    assert(w.subrange(0, p.len() as int) =~= p);
    assert(b.subrange(pos + p.len(), pos + p.len() + q.len()) =~= w.subrange(
        p.len() as int,
        w.len() as int,
    ));
    assert(w.subrange(p.len() as int, w.len() as int) =~= q);
}

pub proof fn lemma_prefix_at_prefix(p: Seq<u8>, q: Seq<u8>, b: Seq<u8>, pos: int)
    requires
        p.is_prefix_of(q),
        prefix_at(q, b, pos),
    ensures
        prefix_at(p, b, pos),
{
    assert(b.subrange(pos, pos + p.len()) =~= b.subrange(pos, pos + q.len()).subrange(0, p.len() as int));
}

pub proof fn lemma_anims_bytes_len(a: Seq<AnimView>)
    ensures
        anims_bytes(a).len() >= 16 * a.len(),
    decreases a.len(),
{
    if a.len() > 0 {
        lemma_anims_bytes_len(a.drop_last());
    }
}

pub proof fn lemma_entries_bytes_len(es: Seq<EntryView>)
    ensures
        entries_bytes(es).len() >= 12 * es.len(),
    decreases es.len(),
{
    if es.len() > 0 {
        lemma_entries_bytes_len(es.drop_last());
    }
}

pub proof fn lemma_anims_bytes_prefix(a: Seq<AnimView>, j: int)
    requires
        0 <= j <= a.len(),
    ensures
        anims_bytes(a.subrange(0, j)).is_prefix_of(anims_bytes(a)),
    decreases a.len(),
{
    if j == a.len() {
        assert(a.subrange(0, j) =~= a);
    } else {
        lemma_anims_bytes_prefix(a.drop_last(), j);
        assert(a.drop_last().subrange(0, j) =~= a.subrange(0, j));
        let p = anims_bytes(a.subrange(0, j));
        let m = anims_bytes(a.drop_last());
        let w = anims_bytes(a);
        assert(w.subrange(0, m.len() as int) =~= m);
        assert(w.subrange(0, p.len() as int) =~= m.subrange(0, p.len() as int));
    }
}

pub proof fn lemma_entries_bytes_prefix(es: Seq<EntryView>, j: int)
    requires
        0 <= j <= es.len(),
    ensures
        entries_bytes(es.subrange(0, j)).is_prefix_of(entries_bytes(es)),
    decreases es.len(),
{
    if j == es.len() {
        assert(es.subrange(0, j) =~= es);
    } else {
        lemma_entries_bytes_prefix(es.drop_last(), j);
        assert(es.drop_last().subrange(0, j) =~= es.subrange(0, j));
        let p = entries_bytes(es.subrange(0, j));
        let m = entries_bytes(es.drop_last());
        let w = entries_bytes(es);
        assert(w.subrange(0, m.len() as int) =~= m);
        assert(w.subrange(0, p.len() as int) =~= m.subrange(0, p.len() as int));
    }
}

/// Relies on `String::from_utf8`: it succeeds exactly on valid UTF-8 and then
/// holds the characters those bytes encode.
#[verifier::external_body]
fn string_from_utf8(v: Vec<u8>) -> (r: Option<String>)
    ensures
        r is Some <==> valid_utf8(v@),
        r matches Some(s) ==> s@ == decode_utf8(v@),
{
    match String::from_utf8(v) {
        Ok(s) => Some(s),
        Err(_) => None,
    }
}

/// Reads the string encoded at `pos`, and where it ends.
fn read_str(b: &Vec<u8>, pos: usize) -> (r: Option<(String, usize)>)
    ensures
        r matches Some((s, end)) ==> pos <= end <= b@.len() && b@.subrange(pos as int, end as int)
            == str_bytes(s@),
        forall|t: Seq<char>|
            #[trigger] prefix_at(str_bytes(t), b@, pos as int) ==> (r matches Some((s, end)) && s@ == t
                && end == pos + str_bytes(t).len()),
{
    if pos > b.len() || b.len() - pos < 8 {
        return None;
    }
    let n = get_u64(b, pos);
    let start = pos + 8;
    proof {
        assert forall|t: Seq<char>| #[trigger] prefix_at(str_bytes(t), b@, pos as int) implies n as int
            == encode_utf8(t).len() by {
            lemma_prefix_at_split(le64(encode_utf8(t).len() as u64), encode_utf8(t), b@, pos as int);
            lemma_le64_injective(n, encode_utf8(t).len() as u64);
        }
    }
    if n > (b.len() - start) as u64 {
        return None;
    }
    let n = n as usize;
    let mut v: Vec<u8> = Vec::new();
    let mut i: usize = 0;
    while i < n
        invariant
            start + n <= b.len(),
            i <= n,
            v@ == b@.subrange(start as int, start + i),
        decreases n - i,
    {
        v.push(b[start + i]);
        i += 1;
        assert(v@ =~= b@.subrange(start as int, start + i));
    }
    let ghost bytes = v@;
    match string_from_utf8(v) {
        Some(s) => {
            proof {
                decode_utf8_encode_utf8(bytes);
                assert(b@.subrange(pos as int, start + n) =~= le64(n as u64) + bytes);
                assert forall|t: Seq<char>| #[trigger] prefix_at(str_bytes(t), b@, pos as int) implies s@
                    == t by {
                    lemma_prefix_at_split(le64(encode_utf8(t).len() as u64), encode_utf8(t), b@, pos as int);
                    encode_utf8_decode_utf8(t);
                }
            }
            Some((s, start + n))
        },
        None => {
            proof {
                assert forall|t: Seq<char>| #[trigger] prefix_at(str_bytes(t), b@, pos as int) implies false by {
                    lemma_prefix_at_split(le64(encode_utf8(t).len() as u64), encode_utf8(t), b@, pos as int);
                    encode_utf8_valid_utf8(t);
                    assert(bytes == encode_utf8(t));
                }
            }
            None
        },
    }
}

/// Reads `n` animations encoded from `pos` on, and where they end.
fn read_anims(b: &Vec<u8>, pos: usize, n: u64) -> (r: Option<(Vec<(String, String)>, usize)>)
    requires
        pos <= b@.len(),
    ensures
        r matches Some((v, end)) ==> pos <= end <= b@.len() && v@.len() == n && b@.subrange(
            pos as int,
            end as int,
        ) == anims_bytes(anims_view(v)),
        forall|a: Seq<AnimView>|
            a.len() == n && #[trigger] prefix_at(anims_bytes(a), b@, pos as int) ==> (r matches Some((v, end))
                && anims_view(v) == a && end == pos + anims_bytes(a).len()),
{
    let mut v: Vec<(String, String)> = Vec::new();
    let mut cur: usize = pos;
    let mut i: u64 = 0;
    assert(b@.subrange(pos as int, pos as int) =~= anims_bytes(anims_view(v)));
    while i < n
        invariant
            pos <= cur <= b@.len(),
            i <= n,
            v@.len() == i,
            b@.subrange(pos as int, cur as int) == anims_bytes(anims_view(v)),
            forall|a: Seq<AnimView>|
                a.len() == n && #[trigger] prefix_at(anims_bytes(a), b@, pos as int) ==> anims_view(v)
                    == a.subrange(0, i as int) && cur == pos + anims_bytes(a.subrange(0, i as int)).len(),
        decreases n - i,
    {
        proof {
            assert forall|a: Seq<AnimView>|
                a.len() == n && #[trigger] prefix_at(anims_bytes(a), b@, pos as int) implies prefix_at(
                str_bytes(a[i as int].0),
                b@,
                cur as int,
            ) && prefix_at(str_bytes(a[i as int].1), b@, cur + str_bytes(a[i as int].0).len()) by {
                lemma_anims_bytes_prefix(a, i + 1);
                lemma_prefix_at_prefix(anims_bytes(a.subrange(0, i + 1)), anims_bytes(a), b@, pos as int);
                assert(a.subrange(0, i + 1).drop_last() =~= a.subrange(0, i as int));
                let p0 = anims_bytes(a.subrange(0, i as int));
                let s0 = str_bytes(a[i as int].0);
                let s1 = str_bytes(a[i as int].1);
                assert(anims_bytes(a.subrange(0, i + 1)) == p0 + s0 + s1);
                lemma_prefix_at_split(p0 + s0, s1, b@, pos as int);
                lemma_prefix_at_split(p0, s0, b@, pos as int);
            }
        }
        let first = read_str(b, cur);
        let (name, mid) = match first {
            Some(x) => x,
            None => {
                return None;
            },
        };
        let second = read_str(b, mid);
        let (symbol, end) = match second {
            Some(x) => x,
            None => {
                return None;
            },
        };
        let ghost prev = anims_view(v);
        v.push((name, symbol));
        proof {
            assert(anims_view(v).drop_last() =~= prev);
            assert(anims_view(v).last() == anim_view((name, symbol)));
            assert(b@.subrange(pos as int, end as int) =~= b@.subrange(pos as int, cur as int) + b@.subrange(
                cur as int,
                mid as int,
            ) + b@.subrange(mid as int, end as int));
            assert forall|a: Seq<AnimView>|
                a.len() == n && #[trigger] prefix_at(anims_bytes(a), b@, pos as int) implies anims_view(v)
                == a.subrange(0, i + 1) && end == pos + anims_bytes(a.subrange(0, i + 1)).len() by {
                assert(a.subrange(0, i + 1).drop_last() =~= a.subrange(0, i as int));
                assert(anims_view(v) =~= a.subrange(0, i + 1));
            }
        }
        cur = end;
        i += 1;
    }
    proof {
        assert forall|a: Seq<AnimView>|
            a.len() == n && #[trigger] prefix_at(anims_bytes(a), b@, pos as int) implies anims_view(v) == a by {
            assert(a.subrange(0, n as int) =~= a);
        }
    }
    Some((v, cur))
}

/// Reads the entry encoded at `pos`, and where it ends.
fn read_entry(b: &Vec<u8>, pos: usize) -> (r: Option<((SkeletonTy, Vec<(String, String)>), usize)>)
    requires
        pos <= b@.len(),
    ensures
        r matches Some((e, end)) ==> pos <= end <= b@.len() && b@.subrange(pos as int, end as int)
            == entry_bytes(entry_view(e)),
        forall|e: EntryView|
            #[trigger] prefix_at(entry_bytes(e), b@, pos as int) ==> (r matches Some((x, end))
                && entry_view(x) == e && end == pos + entry_bytes(e).len()),
{
    if b.len() - pos < 12 {
        return None;
    }
    let tag = get_u32(b, pos);
    let count = get_u64(b, pos + 4);
    proof {
        assert forall|e: EntryView| #[trigger] prefix_at(entry_bytes(e), b@, pos as int) implies kind_tag(e.0)
            == tag && count as int == e.1.len() && prefix_at(anims_bytes(e.1), b@, pos + 12) by {
            let h = le32(kind_tag(e.0));
            let c = le64(e.1.len() as u64);
            lemma_prefix_at_split(h + c, anims_bytes(e.1), b@, pos as int);
            lemma_prefix_at_split(h, c, b@, pos as int);
            lemma_le32_injective(tag, kind_tag(e.0));
            lemma_le64_injective(count, e.1.len() as u64);
            lemma_anims_bytes_len(e.1);
        }
    }
    if tag != 0 {
        return None;
    }
    let ty = SkeletonTy::Character;
    match read_anims(b, pos + 12, count) {
        Some((anims, end)) => {
            let e = (ty, anims);
            proof {
                assert(b@.subrange(pos as int, end as int) =~= b@.subrange(pos as int, pos + 4) + b@.subrange(
                    pos + 4,
                    pos + 12,
                ) + b@.subrange(pos + 12, end as int));
                assert(entry_view(e).1.len() == count);
            }
            Some((e, end))
        },
        None => None,
    }
}

/// Reads `n` entries encoded from `pos` on, and where they end.
fn read_entries(b: &Vec<u8>, pos: usize, n: u64) -> (r: Option<(Vec<(SkeletonTy, Vec<(String, String)>)>, usize)>)
    requires
        pos <= b@.len(),
    ensures
        r matches Some((v, end)) ==> pos <= end <= b@.len() && v@.len() == n && b@.subrange(
            pos as int,
            end as int,
        ) == entries_bytes(v@.map_values(|e: (SkeletonTy, Vec<(String, String)>)| entry_view(e))),
        forall|es: Seq<EntryView>|
            es.len() == n && #[trigger] prefix_at(entries_bytes(es), b@, pos as int) ==> (r matches Some((v, end))
                && v@.map_values(|e: (SkeletonTy, Vec<(String, String)>)| entry_view(e)) == es && end == pos
                + entries_bytes(es).len()),
{
    let mut v: Vec<(SkeletonTy, Vec<(String, String)>)> = Vec::new();
    let mut cur: usize = pos;
    let mut i: u64 = 0;
    assert(b@.subrange(pos as int, pos as int) =~= entries_bytes(
        v@.map_values(|e: (SkeletonTy, Vec<(String, String)>)| entry_view(e)),
    ));
    while i < n
        invariant
            pos <= cur <= b@.len(),
            i <= n,
            v@.len() == i,
            b@.subrange(pos as int, cur as int) == entries_bytes(
                v@.map_values(|e: (SkeletonTy, Vec<(String, String)>)| entry_view(e)),
            ),
            forall|es: Seq<EntryView>|
                es.len() == n && #[trigger] prefix_at(entries_bytes(es), b@, pos as int) ==> v@.map_values(
                    |e: (SkeletonTy, Vec<(String, String)>)| entry_view(e),
                ) == es.subrange(0, i as int) && cur == pos + entries_bytes(es.subrange(0, i as int)).len(),
        decreases n - i,
    {
        proof {
            assert forall|es: Seq<EntryView>|
                es.len() == n && #[trigger] prefix_at(entries_bytes(es), b@, pos as int) implies prefix_at(
                entry_bytes(es[i as int]),
                b@,
                cur as int,
            ) by {
                lemma_entries_bytes_prefix(es, i + 1);
                lemma_prefix_at_prefix(entries_bytes(es.subrange(0, i + 1)), entries_bytes(es), b@, pos as int);
                assert(es.subrange(0, i + 1).drop_last() =~= es.subrange(0, i as int));
                lemma_prefix_at_split(
                    entries_bytes(es.subrange(0, i as int)),
                    entry_bytes(es[i as int]),
                    b@,
                    pos as int,
                );
            }
        }
        let (e, end) = match read_entry(b, cur) {
            Some(x) => x,
            None => {
                return None;
            },
        };
        let ghost prev = v@.map_values(|e: (SkeletonTy, Vec<(String, String)>)| entry_view(e));
        v.push(e);
        proof {
            let now = v@.map_values(|e: (SkeletonTy, Vec<(String, String)>)| entry_view(e));
            assert(now.drop_last() =~= prev);
            assert(now.last() == entry_view(e));
            assert(b@.subrange(pos as int, end as int) =~= b@.subrange(pos as int, cur as int) + b@.subrange(
                cur as int,
                end as int,
            ));
            assert forall|es: Seq<EntryView>|
                es.len() == n && #[trigger] prefix_at(entries_bytes(es), b@, pos as int) implies now == es.subrange(
                0,
                i + 1,
            ) && end == pos + entries_bytes(es.subrange(0, i + 1)).len() by {
                assert(es.subrange(0, i + 1).drop_last() =~= es.subrange(0, i as int));
                assert(now =~= es.subrange(0, i + 1));
            }
        }
        cur = end;
        i += 1;
    }
    proof {
        assert forall|es: Seq<EntryView>|
            es.len() == n && #[trigger] prefix_at(entries_bytes(es), b@, pos as int) implies v@.map_values(
            |e: (SkeletonTy, Vec<(String, String)>)| entry_view(e),
        ) == es by {
            assert(es.subrange(0, n as int) =~= es);
        }
    }
    Some((v, cur))
}

impl Metadata {
    /// The descriptor whose bytes open `b`. Where `b` opens with the bytes
    /// of some descriptor, the result is that descriptor; `None` only where
    /// `b` opens with no descriptor's bytes.
    pub fn decode(b: &Vec<u8>) -> (r: Option<Metadata>)
        ensures
            r matches Some(m) ==> metadata_bytes(m@).is_prefix_of(b@),
            forall|v: (u32, Seq<EntryView>)| #[trigger] metadata_bytes(v).is_prefix_of(b@) ==> (r matches Some(m)
                && m@ == v),
    {
        if b.len() < 12 {
            return None;
        }
        let version = get_u32(b, 0);
        let count = get_u64(b, 4);
        proof {
            assert forall|v: (u32, Seq<EntryView>)| #[trigger] metadata_bytes(v).is_prefix_of(b@) implies version
                == v.0 && count as int == v.1.len() && prefix_at(entries_bytes(v.1), b@, 12) by {
                let h = le32(v.0);
                let c = le64(v.1.len() as u64);
                assert(prefix_at(metadata_bytes(v), b@, 0));
                lemma_prefix_at_split(h + c, entries_bytes(v.1), b@, 0);
                lemma_prefix_at_split(h, c, b@, 0);
                lemma_le32_injective(version, v.0);
                lemma_le64_injective(count, v.1.len() as u64);
                lemma_entries_bytes_len(v.1);
            }
        }
        match read_entries(b, 12, count) {
            Some((skeletons, end)) => {
                let m = Metadata { version, skeletons };
                proof {
                    assert(b@.subrange(0, end as int) =~= b@.subrange(0, 4) + b@.subrange(4, 12) + b@.subrange(
                        12,
                        end as int,
                    ));
                    assert(m@.1.len() == count);
                    assert(metadata_bytes(m@) =~= b@.subrange(0, end as int));
                }
                Some(m)
            },
            None => None,
        }
    }
}

} // verus!
