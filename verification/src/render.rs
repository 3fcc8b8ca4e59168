//! The listing renderer: it owns the extracted entries, orders them
//! case-insensitively by name (reversed on demand), filters hidden entries
//! at display time, and produces the short or the long textual rendering.

use vstd::prelude::*;
use vstd::string::StrSliceExecFns;
use vstd::string::StringExecFns;

use crate::config::Config;
use crate::config::ConfigV;
use crate::entry::spec_long;
use crate::entry::spec_short;
use crate::entry::FileInfo;
use crate::text::lemma_seq_le_total;
use crate::text::lemma_seq_le_trans;
use crate::text::seq_le;
use crate::text::str_le;

verus! {

/// The lowercase mapping of a character sequence; `str::to_lowercase`
/// computes it.
pub uninterp spec fn lower_of(s: Seq<char>) -> Seq<char>;

/// Relies on str::to_lowercase: the lowercase form of a string depends on
/// its characters alone.
#[verifier::external_body]
fn lowercase(s: &str) -> (r: String)
    ensures
        r@ == lower_of(s@),
{
    s.to_lowercase()
}

/// The key an entry is sorted by: its name, lowercased.
pub open spec fn sort_key(e: FileInfo) -> Seq<char> {
    lower_of(e.name@)
}

/// Case-insensitive name order on entries.
pub open spec fn key_le(a: FileInfo, b: FileInfo) -> bool {
    seq_le(sort_key(a), sort_key(b))
}

/// Whether a sequence of entries is sorted by case-insensitive name,
/// ascending.
pub open spec fn spec_sorted(s: Seq<FileInfo>) -> bool {
    forall|i: int, j: int| 0 <= i < j < s.len() ==> key_le(s[i], s[j])
}

/// `key_le` is total.
pub proof fn lemma_key_le_total(a: FileInfo, b: FileInfo)
    ensures
        key_le(a, b) || key_le(b, a),
{
    lemma_seq_le_total(sort_key(a), sort_key(b));
}

/// `key_le` is transitive.
pub proof fn lemma_key_le_trans(a: FileInfo, b: FileInfo, c: FileInfo)
    requires
        key_le(a, b),
        key_le(b, c),
    ensures
        key_le(a, c),
{
    lemma_seq_le_trans(sort_key(a), sort_key(b), sort_key(c));
}

/// Stable insertion of an entry into a sequence: the entry lands after every
/// entry whose key is less than or equal to its own.
pub open spec fn spec_insert(s: Seq<FileInfo>, x: FileInfo) -> Seq<FileInfo>
    decreases s.len(),
{
    if s.len() == 0 {
        seq![x]
    } else if key_le(s.last(), x) {
        s.push(x)
    } else {
        spec_insert(s.drop_last(), x).push(s.last())
    }
}

/// Stable insertion sort by case-insensitive name: entries are inserted in
/// input order, each after all entries with an equal key.
pub open spec fn spec_sort(s: Seq<FileInfo>) -> Seq<FileInfo>
    decreases s.len(),
{
    if s.len() == 0 {
        Seq::empty()
    } else {
        spec_insert(spec_sort(s.drop_last()), s.last())
    }
}

/// Inserting adds one entry and keeps every upper bound that also bounds the
/// inserted entry.
proof fn lemma_insert_le_bound(s: Seq<FileInfo>, x: FileInfo, b: FileInfo)
    requires
        forall|i: int| 0 <= i < s.len() ==> key_le(#[trigger] s[i], b),
        key_le(x, b),
    ensures
        spec_insert(s, x).len() == s.len() + 1,
        forall|i: int| 0 <= i < spec_insert(s, x).len() ==> key_le(#[trigger] spec_insert(s, x)[i], b),
    decreases s.len(),
{
    if s.len() == 0 {
    } else if key_le(s.last(), x) {
    } else {
        lemma_insert_le_bound(s.drop_last(), x, b);
    }
}

/// Inserting into a sorted sequence keeps it sorted.
pub proof fn lemma_insert_sorted(s: Seq<FileInfo>, x: FileInfo)
    requires
        spec_sorted(s),
    ensures
        spec_insert(s, x).len() == s.len() + 1,
        spec_sorted(spec_insert(s, x)),
    decreases s.len(),
{
    if s.len() == 0 {
    } else if key_le(s.last(), x) {
        assert forall|i: int, j: int|
            0 <= i < j < s.push(x).len() implies key_le(s.push(x)[i], s.push(x)[j]) by {
            if j == s.len() {
                if i < s.len() - 1 {
                    lemma_key_le_trans(s[i], s.last(), x);
                }
            }
        }
    } else {
        lemma_key_le_total(s.last(), x);
        let d = s.drop_last();
        lemma_insert_sorted(d, x);
        assert forall|i: int| 0 <= i < d.len() implies key_le(#[trigger] d[i], s.last()) by {
            assert(d[i] == s[i]);
        }
        lemma_insert_le_bound(d, x, s.last());
        let r = spec_insert(d, x).push(s.last());
        assert forall|i: int, j: int| 0 <= i < j < r.len() implies key_le(r[i], r[j]) by {
            if j == r.len() - 1 {
                assert(key_le(spec_insert(d, x)[i], s.last()));
            }
        }
    }
}

/// Sorting yields a sorted sequence of the same length.
pub proof fn lemma_sort_sorted(s: Seq<FileInfo>)
    ensures
        spec_sort(s).len() == s.len(),
        spec_sorted(spec_sort(s)),
    decreases s.len(),
{
    if s.len() > 0 {
        lemma_sort_sorted(s.drop_last());
        lemma_insert_sorted(spec_sort(s.drop_last()), s.last());
    }
}

/// Inserting adds exactly the inserted entry to the multiset of entries.
pub proof fn lemma_insert_multiset(s: Seq<FileInfo>, x: FileInfo)
    ensures
        spec_insert(s, x).to_multiset() =~= s.to_multiset().insert(x),
    decreases s.len(),
{
    s.to_multiset_ensures();
    if s.len() == 0 {
        assert(seq![x] =~= Seq::<FileInfo>::empty().push(x));
        Seq::<FileInfo>::empty().to_multiset_ensures();
    } else if key_le(s.last(), x) {
    } else {
        let d = s.drop_last();
        lemma_insert_multiset(d, x);
        d.to_multiset_ensures();
        spec_insert(d, x).to_multiset_ensures();
        assert(s =~= d.push(s.last()));
        assert(s.to_multiset() == d.to_multiset().insert(s.last()));
    }
}

/// Sorting permutes the entries: the multiset of entries is unchanged.
pub proof fn lemma_sort_multiset(s: Seq<FileInfo>)
    ensures
        spec_sort(s).to_multiset() =~= s.to_multiset(),
    decreases s.len(),
{
    if s.len() > 0 {
        let d = s.drop_last();
        lemma_sort_multiset(d);
        lemma_insert_multiset(spec_sort(d), s.last());
        d.to_multiset_ensures();
        assert(s =~= d.push(s.last()));
        assert(d.push(s.last()).to_multiset() =~= d.to_multiset().insert(s.last()));
        assert(spec_sort(s).to_multiset() =~= spec_sort(d).to_multiset().insert(s.last()));
    } else {
        assert(s =~= Seq::<FileInfo>::empty());
    }
}

/// Where a sorted sequence is split by an entry's key, stable insertion
/// places the entry exactly at the split point.
proof fn lemma_insert_position(s: Seq<FileInfo>, x: FileInfo, j: int)
    requires
        spec_sorted(s),
        0 <= j <= s.len(),
        forall|k: int| 0 <= k < j ==> key_le(#[trigger] s[k], x),
        j < s.len() ==> !key_le(s[j], x),
    ensures
        spec_insert(s, x) == s.insert(j, x),
    decreases s.len(),
{
    if j == s.len() {
        if s.len() == 0 {
            assert(spec_insert(s, x) =~= s.insert(j, x));
        } else {
            assert(key_le(s.last(), x));
            assert(spec_insert(s, x) =~= s.insert(j, x));
        }
    } else {
        assert(!key_le(s[j], x));
        if key_le(s.last(), x) {
            if j < s.len() - 1 {
                assert(key_le(s[j], s.last()));
                lemma_key_le_trans(s[j], s.last(), x);
                assert(false);
            } else {
                assert(false);
            }
        }
        let d = s.drop_last();
        assert forall|i: int, k: int| 0 <= i < k < d.len() implies key_le(d[i], d[k]) by {
            assert(d[i] == s[i] && d[k] == s[k]);
        }
        assert forall|k: int| 0 <= k < j implies key_le(#[trigger] d[k], x) by {
            assert(d[k] == s[k]);
        }
        if j < d.len() {
            assert(d[j] == s[j]);
        }
        lemma_insert_position(d, x, j);
        assert(spec_insert(d, x).push(s.last()) =~= s.insert(j, x));
    }
}

/// Inserts an entry into a sorted vector, after every entry whose key is
/// less than or equal to its own.
fn insert_sorted(out: &mut Vec<FileInfo>, x: FileInfo)
    requires
        spec_sorted(old(out)@),
    ensures
        final(out)@ == spec_insert(old(out)@, x),
{
    let key_x = lowercase(x.name.as_str());
    let mut j: usize = 0;
    loop
        invariant
            j <= out.len(),
            spec_sorted(out@),
            *out == *old(out),
            key_x@ == sort_key(x),
            forall|k: int| 0 <= k < j ==> key_le(#[trigger] out@[k], x),
        ensures
            j <= out.len(),
            *out == *old(out),
            forall|k: int| 0 <= k < j ==> key_le(#[trigger] out@[k], x),
            j < out.len() ==> !key_le(out@[j as int], x),
        decreases out.len() - j,
    {
        if j == out.len() {
            break ;
        }
        let key_j = lowercase(out[j].name.as_str());
        if !str_le(key_j.as_str(), key_x.as_str()) {
            break ;
        }
        j = j + 1;
    }
    proof {
        lemma_insert_position(out@, x, j as int);
    }
    out.insert(j, x);
}

/// Sorts entries by case-insensitive name, ascending and stable.
pub fn sort_entries(entries: Vec<FileInfo>) -> (r: Vec<FileInfo>)
    ensures
        r@ == spec_sort(entries@),
{
    let ghost all: Seq<FileInfo> = entries@;
    let mut v = entries;
    let mut out: Vec<FileInfo> = Vec::new();
    let ghost mut k: int = 0;
    proof {
        assert(v@ =~= all.skip(0));
        assert(out@ =~= spec_sort(all.take(0)));
    }
    while v.len() > 0
        invariant
            0 <= k <= all.len(),
            v@ == all.skip(k),
            out@ == spec_sort(all.take(k)),
        decreases v.len(),
    {
        proof {
            assert(all.skip(k)[0] == all[k]);
        }
        let x = v.remove(0);
        proof {
            assert(v@ =~= all.skip(k + 1));
            lemma_sort_sorted(all.take(k));
        }
        insert_sorted(&mut out, x);
        proof {
            assert(all.take(k + 1).drop_last() =~= all.take(k));
            assert(all.take(k + 1).last() == all[k]);
        }
        proof {
            k = k + 1;
        }
    }
    proof {
        assert(all.take(all.len() as int) =~= all);
    }
    out
}

/// Reverses a vector of entries.
pub fn reverse_entries(v: Vec<FileInfo>) -> (r: Vec<FileInfo>)
    ensures
        r@ == v@.reverse(),
{
    let ghost orig: Seq<FileInfo> = v@;
    let mut w = v;
    let mut out: Vec<FileInfo> = Vec::new();
    proof {
        assert(w@ =~= orig.take(w@.len() as int));
    }
    while w.len() > 0
        invariant
            w@.len() + out@.len() == orig.len(),
            w@ == orig.take(w@.len() as int),
            forall|i: int| 0 <= i < out@.len() ==> out@[i] == orig[orig.len() - 1 - i],
        decreases w.len(),
    {
        let ghost n: int = w@.len() as int;
        let x = w.pop().unwrap();
        proof {
            assert(x == orig.take(n)[n - 1]);
            assert(w@ =~= orig.take(n - 1));
        }
        out.push(x);
    }
    proof {
        assert(out@ =~= orig.reverse());
    }
    out
}

/// Whether an entry counts as hidden: its name starts with a dot.
pub open spec fn spec_is_hidden(e: FileInfo) -> bool {
    e.name@.len() > 0 && e.name@[0] == '.'
}

/// The predicate selecting the entries that a listing without the
/// show-hidden flag displays.
pub open spec fn visible_pred() -> spec_fn(FileInfo) -> bool {
    |e: FileInfo| !spec_is_hidden(e)
}

/// The entries a configuration displays: all of them when the show-hidden
/// flag is set, otherwise all whose name does not start with a dot.
pub open spec fn spec_visible(c: ConfigV, s: Seq<FileInfo>) -> Seq<FileInfo> {
    if c.a {
        s
    } else {
        s.filter(visible_pred())
    }
}

/// Filtering happens at display time alone: with the show-hidden flag the
/// working set is displayed whole, and without it exactly the entries whose
/// name does not start with a dot remain.
pub proof fn lemma_hidden_filtering(c: ConfigV, s: Seq<FileInfo>)
    ensures
        c.a ==> spec_visible(c, s) == s,
        !c.a ==> forall|i: int|
            0 <= i < spec_visible(c, s).len() ==> !spec_is_hidden(#[trigger] spec_visible(c, s)[i]),
        !c.a ==> forall|i: int|
            0 <= i < s.len() && !spec_is_hidden(s[i]) ==> spec_visible(c, s).contains(
                #[trigger] s[i],
            ),
{
    if !c.a {
        let pred = visible_pred();
        assert forall|i: int| 0 <= i < spec_visible(c, s).len() implies !spec_is_hidden(
            #[trigger] spec_visible(c, s)[i],
        ) by {
            Seq::lemma_filter_pred(s, pred, i);
        }
        assert forall|i: int| 0 <= i < s.len() && !spec_is_hidden(s[i]) implies spec_visible(
            c,
            s,
        ).contains(#[trigger] s[i]) by {
            Seq::lemma_filter_contains(s, pred, i);
        }
    }
}

/// One rendered entry: its long line followed by a newline, or its short
/// form followed by two separating spaces.
pub open spec fn spec_line(long: bool, e: FileInfo) -> Seq<char> {
    if long {
        spec_long(e) + "\n"@
    } else {
        spec_short(e) + "  "@
    }
}

/// The rendered form of a sequence of entries, in order.
pub open spec fn spec_lines(long: bool, s: Seq<FileInfo>) -> Seq<char>
    decreases s.len(),
{
    if s.len() == 0 {
        Seq::empty()
    } else {
        spec_lines(long, s.drop_last()) + spec_line(long, s.last())
    }
}

/// What a configuration renders for an already-ordered entry sequence:
/// the visible entries, each in long or short form.
pub open spec fn spec_render(c: ConfigV, s: Seq<FileInfo>) -> Seq<char> {
    spec_lines(c.l, spec_visible(c, s))
}

/// The display order a configuration asks for: sorted ascending by
/// case-insensitive name, the whole order reversed when the reverse flag is
/// set.
pub open spec fn spec_ordered(c: ConfigV, s: Seq<FileInfo>) -> Seq<FileInfo> {
    if c.r {
        spec_sort(s).reverse()
    } else {
        spec_sort(s)
    }
}

/// The full rendering pipeline on extracted entries: order them, then render
/// the visible ones.
pub open spec fn spec_listing(c: ConfigV, s: Seq<FileInfo>) -> Seq<char> {
    spec_render(c, spec_ordered(c, s))
}

/// Whether a name marks a hidden entry: it starts with a dot.
fn is_hidden_name(name: &str) -> (r: bool)
    ensures
        r == (name@.len() > 0 && name@[0] == '.'),
{
    name.unicode_len() > 0 && name.get_char(0) == '.'
}

/// The listing renderer: a configuration together with the entries to show,
/// already in display order.
pub struct LSDisplay {
    pub config: Config,
    pub entries: Vec<FileInfo>,
}

impl LSDisplay {
    /// Takes ownership of the extracted entries and puts them in display
    /// order: sorted ascending by case-insensitive name, reversed when the
    /// reverse flag is set.
    pub fn new(config: Config, entries: Vec<FileInfo>) -> (r: LSDisplay)
        ensures
            r.config == config,
            r.entries@ == spec_ordered(config@, entries@),
    {
        let sorted = sort_entries(entries);
        let ordered = if config.r {
            reverse_entries(sorted)
        } else {
            sorted
        };
        LSDisplay { config, entries: ordered }
    }

    /// Renders the entries: hidden entries are skipped unless the
    /// show-hidden flag is set, and each remaining entry contributes its
    /// long line plus newline, or its short form plus two spaces.
    pub fn render(&self) -> (r: String)
        ensures
            r@ == spec_render(self.config@, self.entries@),
    {
        let ghost c: ConfigV = self.config@;
        let ghost all: Seq<FileInfo> = self.entries@;
        let mut r = String::new();
        let mut i: usize = 0;
        proof {
            reveal(Seq::filter);
            assert(all.take(0) =~= Seq::<FileInfo>::empty());
            assert(spec_visible(c, all.take(0)) =~= Seq::<FileInfo>::empty());
        }
        while i < self.entries.len()
            invariant
                i <= all.len(),
                c == self.config@,
                all == self.entries@,
                r@ == spec_lines(c.l, spec_visible(c, all.take(i as int))),
            decreases all.len() - i,
        {
            let ghost before: Seq<char> = r@;
            let e = &self.entries[i];
            let show = self.config.a || !is_hidden_name(e.name.as_str());
            if show {
                if self.config.l {
                    let line = e.long();
                    r.append(line.as_str());
                    r.append("\n");
                } else {
                    let line = e.short();
                    r.append(line.as_str());
                    r.append("  ");
                }
                proof {
                    assert(r@ =~= before + spec_line(c.l, all[i as int]));
                }
            }
            proof {
                reveal(Seq::filter);
                let t0 = all.take(i as int);
                let t1 = all.take(i as int + 1);
                assert(t1.drop_last() =~= t0);
                assert(t1.last() == all[i as int]);
                let v0 = spec_visible(c, t0);
                let v1 = spec_visible(c, t1);
                if c.a || !spec_is_hidden(all[i as int]) {
                    assert(v1 =~= v0.push(all[i as int]));
                    assert(v1.drop_last() =~= v0);
                    assert(spec_lines(c.l, v1) == spec_lines(c.l, v0) + spec_line(
                        c.l,
                        all[i as int],
                    ));
                } else {
                    assert(v1 =~= v0);
                }
            }
            i = i + 1;
        }
        proof {
            assert(all.take(all.len() as int) =~= all);
        }
        r
    }
}

/// Rendering is a pure function of the configuration and the extracted
/// entries: the same inputs always produce the same output, so rendering
/// twice yields byte-identical text.
pub proof fn lemma_listing_pure(
    c1: ConfigV,
    c2: ConfigV,
    e1: Seq<FileInfo>,
    e2: Seq<FileInfo>,
)
    requires
        c1 == c2,
        e1 == e2,
    ensures
        spec_listing(c1, e1) == spec_listing(c2, e2),
{
}

/// Reversing a sequence permutes it: the multiset of entries is unchanged.
proof fn lemma_reverse_multiset(s: Seq<FileInfo>)
    ensures
        s.reverse().to_multiset() =~= s.to_multiset(),
    decreases s.len(),
{
    if s.len() == 0 {
        assert(s.reverse() =~= s);
    } else {
        let d = s.drop_last();
        lemma_reverse_multiset(d);
        let t = d.reverse();
        let w = seq![s.last()] + t;
        assert(s.reverse() =~= w);
        s.to_multiset_ensures();
        d.to_multiset_ensures();
        w.to_multiset_ensures();
        t.to_multiset_ensures();
        assert(s =~= d.push(s.last()));
        assert(s.to_multiset() =~= d.to_multiset().insert(s.last()));
        assert(w.remove(0) =~= t);
        assert(w[0] == s.last());
        assert(w.remove(0).to_multiset() =~= w.to_multiset().remove(s.last()));
        assert(w.contains(s.last())) by {
            assert(w[0] == s.last());
        }
        assert(w.to_multiset().count(s.last()) > 0);
        assert(w.to_multiset() =~= t.to_multiset().insert(s.last()));
    }
}

/// The display order is a permutation of the extracted entries, sorted by
/// case-insensitive name: ascending without the reverse flag, descending
/// with it.
pub proof fn lemma_ordered_entries(c: ConfigV, s: Seq<FileInfo>)
    ensures
        spec_ordered(c, s).len() == s.len(),
        spec_ordered(c, s).to_multiset() == s.to_multiset(),
        !c.r ==> forall|i: int, j: int|
            0 <= i < j < s.len() ==> key_le(spec_ordered(c, s)[i], spec_ordered(c, s)[j]),
        c.r ==> forall|i: int, j: int|
            0 <= i < j < s.len() ==> key_le(spec_ordered(c, s)[j], spec_ordered(c, s)[i]),
{
    lemma_sort_sorted(s);
    lemma_sort_multiset(s);
    if c.r {
        lemma_reverse_multiset(spec_sort(s));
        let o = spec_ordered(c, s);
        let t = spec_sort(s);
        assert forall|i: int, j: int| 0 <= i < j < s.len() implies key_le(o[j], o[i]) by {
            assert(o[i] == t[s.len() - 1 - i]);
            assert(o[j] == t[s.len() - 1 - j]);
        }
    }
}

} // verus!

