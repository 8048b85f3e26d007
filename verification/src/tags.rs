//! Registered tags: their pages of letter shortcuts, the shortcut of a given
//! tag, and the summary of how many repositories carry each tag.
use vstd::prelude::*;

verus! {

/// The letter keys that select a registered tag on one page.
pub const TAG_KEYS: [char; 26] = [
    'a', 'b', 'c', 'd', 'e', 'f', 'g', 'h', 'i', 'j', 'k', 'l', 'm', 'n', 'o', 'p', 'q', 'r', 's',
    't', 'u', 'v', 'w', 'x', 'y', 'z',
];

/// Number of tags shown on one page.
pub const TAG_PAGE_SIZE: usize = 26;

/// The tag keys as a sequence: the 26 lowercase ASCII letters in order.
pub open spec fn tag_keys() -> Seq<char> {
    seq![
        'a', 'b', 'c', 'd', 'e', 'f', 'g', 'h', 'i', 'j', 'k', 'l', 'm', 'n', 'o', 'p', 'q', 'r',
        's', 't', 'u', 'v', 'w', 'x', 'y', 'z',
    ]
}

/// The tag keys are 26 distinct characters.
pub proof fn lemma_tag_keys_distinct()
    ensures
        tag_keys().len() == 26,
        tag_keys().no_duplicates(),
        tag_keys().to_set().len() == 26,
{
    assert(tag_keys().no_duplicates());
    tag_keys().unique_seq_to_set();
}

/// Number of pages needed for `total_tags` tags.
pub open spec fn page_count_spec(total_tags: int) -> int {
    if total_tags <= 0 {
        0
    } else {
        1 + (total_tags - 1) / 26
    }
}

/// `page` limited to the pages that exist (page 0 when there is none).
pub open spec fn clamp_page_spec(page: int, page_count: int) -> int {
    if page_count <= 0 {
        0
    } else if page < page_count - 1 {
        page
    } else {
        page_count - 1
    }
}

/// Number of pages needed for `total_tags` tags, 26 to a page.
pub fn tag_page_count(total_tags: usize) -> (r: usize)
    ensures
        r == page_count_spec(total_tags as int),
{
    if total_tags == 0 {
        0
    } else {
        1 + (total_tags - 1) / TAG_PAGE_SIZE
    }
}

/// The last existing page when `page` lies beyond it; page 0 when there are no pages.
pub fn clamp_tag_page(page: usize, page_count: usize) -> (r: usize)
    ensures
        r == clamp_page_spec(page as int, page_count as int),
{
    if page_count == 0 {
        0
    } else if page < page_count - 1 {
        page
    } else {
        page_count - 1
    }
}


/// The lowercase mapping of a character, as `char::to_lowercase` yields it.
pub uninterp spec fn char_lowercase(c: char) -> Seq<char>;

/// `char::to_lowercase`, collected. Of ASCII characters std documents the
/// mapping: `A`..`Z` become `a`..`z` and every other ASCII character stays
/// as it is; beyond ASCII the mapping is named only.
#[verifier::external_body]
fn lowercase_chars(c: char) -> (r: Vec<char>)
    ensures
        r@ == char_lowercase(c),
        (c as u32) < 128 ==> r@ == seq![
            if 65 <= (c as u32) <= 90 {
                ((c as u32) + 32) as char
            } else {
                c
            },
        ],
{
    c.to_lowercase().collect()
}

/// An ASCII letter, upper or lower case.
pub open spec fn is_ascii_letter(c: char) -> bool {
    ('a' <= c && c <= 'z') || ('A' <= c && c <= 'Z')
}

/// Whether `c` is an ASCII letter (`char::is_ascii_alphabetic`).
pub fn is_ascii_alphabetic(c: char) -> (r: bool)
    ensures
        r == is_ascii_letter(c),
{
    ('a' <= c && c <= 'z') || ('A' <= c && c <= 'Z')
}

/// The lowercase mapping of `c`: for an ASCII character its ASCII
/// lowercase (`A`..`Z` become `a`..`z`, others stay), beyond ASCII the
/// mapping `char::to_lowercase` yields.
pub open spec fn lowercase_of(c: char) -> Seq<char> {
    if (c as u32) < 128 {
        seq![
            if 65 <= (c as u32) <= 90 {
                ((c as u32) + 32) as char
            } else {
                c
            },
        ]
    } else {
        char_lowercase(c)
    }
}

/// The ASCII letters among the lowercase mappings of the characters of `tag`, in order.
pub open spec fn tag_letters(tag: Seq<char>) -> Seq<char>
    decreases tag.len(),
{
    if tag.len() == 0 {
        Seq::empty()
    } else {
        tag_letters(tag.drop_last()) + lowercase_of(tag.last()).filter(|c: char| is_ascii_letter(c))
    }
}

/// Every character of `tag` is ASCII.
pub open spec fn ascii_text(tag: Seq<char>) -> bool {
    forall|i: int| 0 <= i < tag.len() ==> (#[trigger] tag[i] as u32) < 128
}

/// The letters of a tag written in ASCII are lowercase.
proof fn lemma_ascii_tag_letters_lower(tag: Seq<char>)
    requires
        ascii_text(tag),
    ensures
        forall|i: int| 0 <= i < tag_letters(tag).len() ==> 'a' <= #[trigger] tag_letters(tag)[i] <= 'z',
    decreases tag.len(),
{
    if tag.len() > 0 {
        let init = tag.drop_last();
        assert forall|i: int| 0 <= i < init.len() implies (#[trigger] init[i] as u32) < 128 by {
            assert(init[i] == tag[i]);
        }
        lemma_ascii_tag_letters_lower(init);
        let c = tag.last();
        assert((tag[tag.len() - 1] as u32) < 128);
        let lc = if 65 <= (c as u32) <= 90 {
            ((c as u32) + 32) as char
        } else {
            c
        };
        let l = lowercase_of(c);
        assert(l == seq![lc]);
        let pred = |x: char| is_ascii_letter(x);
        let f = l.filter(pred);
        assert(l.drop_last() =~= Seq::<char>::empty());
        assert(l.drop_last().filter(pred) =~= Seq::<char>::empty());
        assert(l.last() == lc);
        reveal(Seq::filter);
        assert(f == (if pred(l.last()) {
            l.drop_last().filter(pred).push(l.last())
        } else {
            l.drop_last().filter(pred)
        }));
        assert(pred(lc) == is_ascii_letter(lc));
        if is_ascii_letter(lc) {
            assert(f =~= seq![lc]);
            assert('a' <= lc <= 'z') by {
                if 65 <= (c as u32) <= 90 {
                    assert(97 <= (c as u32) + 32 <= 122);
                }
            }
        } else {
            assert(f =~= Seq::<char>::empty());
        }
        let all = tag_letters(tag);
        assert(all == tag_letters(init) + f);
        assert forall|i: int| 0 <= i < all.len() implies 'a' <= #[trigger] all[i] <= 'z' by {
            if i < tag_letters(init).len() {
                assert(all[i] == tag_letters(init)[i]);
            } else {
                assert(all[i] == f[i - tag_letters(init).len()]);
            }
        }
    }
}

/// The letters of two pieces of text are the letters of each, in order.
proof fn lemma_tag_letters_concat(a: Seq<char>, b: Seq<char>)
    ensures
        tag_letters(a + b) == tag_letters(a) + tag_letters(b),
    decreases b.len(),
{
    if b.len() == 0 {
        assert(a + b =~= a);
        assert(tag_letters(a) + tag_letters(b) =~= tag_letters(a));
    } else {
        lemma_tag_letters_concat(a, b.drop_last());
        assert((a + b).drop_last() =~= a + b.drop_last());
        assert((a + b).last() == b.last());
        let f = lowercase_of(b.last()).filter(|c: char| is_ascii_letter(c));
        assert(tag_letters(a) + tag_letters(b.drop_last()) + f =~= tag_letters(a) + (tag_letters(b.drop_last()) + f));
    }
}

/// The first element of `first_occurrences(s)` is the first element of `s`.
proof fn lemma_first_occurrences_first(s: Seq<char>)
    requires
        s.len() > 0,
    ensures
        first_occurrences(s).len() > 0,
        first_occurrences(s)[0] == s[0],
    decreases s.len(),
{
    if s.len() == 1 {
        assert(s.drop_last() =~= Seq::<char>::empty());
    } else {
        lemma_first_occurrences_first(s.drop_last());
        assert(s.drop_last()[0] == s[0]);
    }
}

/// A binding key is the first unused candidate given the keys of the tags
/// before it.
proof fn lemma_binding_key_at(tags: Seq<Seq<char>>, i: int)
    requires
        0 <= i < tags.len(),
    ensures
        binding_keys(tags).len() == tags.len(),
        binding_keys(tags)[i] == first_unused(shortcut_candidates(tags[i]), binding_keys(tags).take(i)),
    decreases tags.len(),
{
    let prev = binding_keys(tags.drop_last());
    if i < tags.len() - 1 {
        lemma_binding_key_at(tags.drop_last(), i);
        assert(tags.drop_last()[i] == tags[i]);
        assert(binding_keys(tags).take(i) =~= prev.take(i));
    } else {
        lemma_binding_keys_len(tags.drop_last());
        assert(binding_keys(tags).take(i) =~= prev);
    }
}

proof fn lemma_binding_keys_len(tags: Seq<Seq<char>>)
    ensures
        binding_keys(tags).len() == tags.len(),
    decreases tags.len(),
{
    if tags.len() > 0 {
        lemma_binding_keys_len(tags.drop_last());
    }
}

/// A tag written in ASCII that starts with a letter gets that letter,
/// lowercased, as its key, unless a tag before it on the page took it.
pub proof fn law_tag_prefers_its_first_letter(tags: Seq<Seq<char>>, i: int)
    requires
        0 <= i < tags.len(),
        ascii_text(tags[i]),
        tags[i].len() > 0,
        is_ascii_letter(tags[i][0]),
        forall|j: int|
            0 <= j < i ==> #[trigger] binding_keys(tags)[j] != (if 'A' <= tags[i][0] <= 'Z' {
                ((tags[i][0] as u32) + 32) as char
            } else {
                tags[i][0]
            }),
    ensures
        binding_keys(tags)[i] == (if 'A' <= tags[i][0] <= 'Z' {
            ((tags[i][0] as u32) + 32) as char
        } else {
            tags[i][0]
        }),
{
    let tag = tags[i];
    let c = tag[0];
    let lc = if 'A' <= c <= 'Z' {
        ((c as u32) + 32) as char
    } else {
        c
    };
    let head = seq![c];
    assert(tag =~= head + tag.skip(1));
    lemma_tag_letters_concat(head, tag.skip(1));
    assert(head.drop_last() =~= Seq::<char>::empty());
    assert(head.last() == c);
    assert((c as u32) < 128);
    let l = lowercase_of(c);
    assert(l == seq![lc]);
    let pred = |x: char| is_ascii_letter(x);
    reveal(Seq::filter);
    assert(l.drop_last() =~= Seq::<char>::empty());
    assert(is_ascii_letter(lc)) by {
        if 'A' <= c <= 'Z' {
            assert(97 <= (c as u32) + 32 <= 122);
        }
    }
    assert(l.filter(pred) == (if pred(l.last()) {
        l.drop_last().filter(pred).push(l.last())
    } else {
        l.drop_last().filter(pred)
    }));
    assert(l.filter(pred) =~= seq![lc]);
    assert(tag_letters(head.drop_last()) =~= Seq::<char>::empty());
    assert(tag_letters(head) == tag_letters(head.drop_last()) + l.filter(pred));
    assert(tag_letters(head) =~= seq![lc]);
    let letters = tag_letters(tag);
    assert(letters[0] == lc);
    let all = letters + tag_keys();
    assert(all[0] == lc);
    lemma_first_occurrences_first(all);
    let cands = shortcut_candidates(tag);
    assert(cands[0] == lc);
    lemma_binding_key_at(tags, i);
    let before = binding_keys(tags).take(i);
    assert(!before.contains(lc)) by {
        if before.contains(lc) {
            let j = choose|j: int| 0 <= j < before.len() && before[j] == lc;
            assert(binding_keys(tags)[j] == lc);
        }
    }
}

/// Every shortcut candidate of a tag written in ASCII is a lowercase ASCII
/// letter.
proof fn lemma_ascii_candidates_lower(tag: Seq<char>, key: char)
    requires
        ascii_text(tag),
        shortcut_candidates(tag).contains(key),
    ensures
        'a' <= key <= 'z',
{
    lemma_ascii_tag_letters_lower(tag);
    let all = tag_letters(tag) + tag_keys();
    lemma_first_occurrences_contains(all, key);
    let k = choose|k: int| 0 <= k < all.len() && all[k] == key;
    if k < tag_letters(tag).len() {
        assert(all[k] == tag_letters(tag)[k]);
    } else {
        assert(all[k] == tag_keys()[k - tag_letters(tag).len()]);
    }
}

/// On a page of at most 26 tags written in ASCII, every binding key is one
/// of the 26 lowercase tag keys.
pub proof fn lemma_ascii_binding_keys_lower(tags: Seq<Seq<char>>)
    requires
        tags.len() <= 26,
        forall|i: int| 0 <= i < tags.len() ==> ascii_text(#[trigger] tags[i]),
    ensures
        binding_keys(tags).len() == tags.len(),
        forall|i: int| 0 <= i < tags.len() ==> 'a' <= #[trigger] binding_keys(tags)[i] <= 'z',
{
    lemma_binding_keys_distinct(tags);
    assert forall|i: int| 0 <= i < tags.len() implies 'a' <= #[trigger] binding_keys(tags)[i] <= 'z' by {
        lemma_ascii_candidates_lower(tags[i], binding_keys(tags)[i]);
    }
}

/// `s` with every repeated element after its first occurrence removed.
pub open spec fn first_occurrences(s: Seq<char>) -> Seq<char>
    decreases s.len(),
{
    if s.len() == 0 {
        Seq::empty()
    } else {
        let d = first_occurrences(s.drop_last());
        if d.contains(s.last()) {
            d
        } else {
            d.push(s.last())
        }
    }
}

/// The keys a tag may take, in order of preference: the letters of the tag
/// itself first, then the remaining tag keys; no key twice.
pub open spec fn shortcut_candidates(tag: Seq<char>) -> Seq<char> {
    first_occurrences(tag_letters(tag) + tag_keys())
}

/// Whether `c` occurs in `v`.
pub fn contains_char(v: &Vec<char>, c: char) -> (r: bool)
    ensures
        r == v@.contains(c),
{
    let mut i: usize = 0;
    while i < v.len()
        invariant
            i <= v.len(),
            forall|k: int| 0 <= k < i ==> v@[k] != c,
        decreases v.len() - i,
    {
        if v[i] == c {
            return true;
        }
        i = i + 1;
    }
    false
}

/// The tag keys, as a vector.
pub fn tag_key_vec() -> (r: Vec<char>)
    ensures
        r@ == tag_keys(),
{
    let mut r: Vec<char> = Vec::new();
    let mut i: usize = 0;
    while i < TAG_PAGE_SIZE
        invariant
            i <= 26,
            r@ == tag_keys().take(i as int),
        decreases 26 - i,
    {
        assert(TAG_KEYS@ =~= tag_keys());
        r.push(TAG_KEYS[i]);
        assert(tag_keys().take(i + 1) =~= tag_keys().take(i as int).push(tag_keys()[i as int]));
        i = i + 1;
    }
    assert(tag_keys().take(26) =~= tag_keys());
    r
}

/// The candidate keys of `tag`, best first: its own letters (lowercased, ASCII
/// letters only), then every other tag key; each key once.
pub fn tag_shortcut_candidates(tag: &str) -> (r: Vec<char>)
    ensures
        r@ == shortcut_candidates(tag@),
{
    let chars = crate::strings::chars_of(tag);
    let mut letters: Vec<char> = Vec::new();
    let mut i: usize = 0;
    while i < chars.len()
        invariant
            i <= chars.len(),
            chars@ == tag@,
            letters@ == tag_letters(chars@.take(i as int)),
        decreases chars.len() - i,
    {
        let lower = lowercase_chars(chars[i]);
        let ghost base = letters@;
        let mut j: usize = 0;
        while j < lower.len()
            invariant
                j <= lower.len(),
                letters@ == base + lower@.take(j as int).filter(|c: char| is_ascii_letter(c)),
            decreases lower.len() - j,
        {
            let c = lower[j];
            proof {
                lower@.take(j as int).lemma_filter_push(c, |c: char| is_ascii_letter(c));
                assert(lower@.take(j + 1) =~= lower@.take(j as int).push(c));
            }
            if is_ascii_alphabetic(c) {
                letters.push(c);
                assert(letters@ =~= base + lower@.take(j + 1).filter(|c: char| is_ascii_letter(c)));
            } else {
                assert(letters@ =~= base + lower@.take(j + 1).filter(|c: char| is_ascii_letter(c)));
            }
            j = j + 1;
        }
        assert(lower@.take(lower@.len() as int) =~= lower@);
        assert(chars@.take(i + 1).drop_last() =~= chars@.take(i as int));
        i = i + 1;
    }
    assert(chars@.take(chars@.len() as int) =~= chars@);
    let keys = tag_key_vec();
    let mut all = letters;
    let mut k: usize = 0;
    let ghost prefix = all@;
    while k < keys.len()
        invariant
            k <= keys.len(),
            all@ == prefix + keys@.take(k as int),
        decreases keys.len() - k,
    {
        all.push(keys[k]);
        assert(all@ =~= prefix + keys@.take(k + 1));
        k = k + 1;
    }
    assert(keys@.take(keys@.len() as int) =~= keys@);
    let mut out: Vec<char> = Vec::new();
    let mut m: usize = 0;
    while m < all.len()
        invariant
            m <= all.len(),
            out@ == first_occurrences(all@.take(m as int)),
        decreases all.len() - m,
    {
        let c = all[m];
        assert(all@.take(m + 1).drop_last() =~= all@.take(m as int));
        if !contains_char(&out, c) {
            out.push(c);
        }
        m = m + 1;
    }
    assert(all@.take(all@.len() as int) =~= all@);
    out
}


/// The first candidate that is not yet used (`'a'` when every candidate is).
pub open spec fn first_unused(cands: Seq<char>, used: Seq<char>) -> char
    decreases cands.len(),
{
    if cands.len() == 0 {
        'a'
    } else if !used.contains(cands[0]) {
        cands[0]
    } else {
        first_unused(cands.drop_first(), used)
    }
}

/// The keys of the tags of one page, in order: each tag takes its first
/// candidate that no earlier tag of the page took.
pub open spec fn binding_keys(tags: Seq<Seq<char>>) -> Seq<char>
    decreases tags.len(),
{
    if tags.len() == 0 {
        Seq::empty()
    } else {
        let prev = binding_keys(tags.drop_last());
        prev.push(first_unused(shortcut_candidates(tags.last()), prev))
    }
}

/// The tags shown on `page` (clamped to the existing pages).
pub open spec fn page_slice(tags: Seq<Seq<char>>, page: int) -> Seq<Seq<char>> {
    let p = clamp_page_spec(page, page_count_spec(tags.len() as int));
    let start = p * 26;
    let end = if start + 26 < tags.len() {
        start + 26
    } else {
        tags.len() as int
    };
    tags.subrange(start, end)
}

/// Deduplication keeps exactly the elements of the sequence.
pub proof fn lemma_first_occurrences_contains(s: Seq<char>, x: char)
    ensures
        first_occurrences(s).contains(x) == s.contains(x),
    decreases s.len(),
{
    if s.len() > 0 {
        lemma_first_occurrences_contains(s.drop_last(), x);
        let d = first_occurrences(s.drop_last());
        if s.contains(x) {
            let k = choose|k: int| 0 <= k < s.len() && s[k] == x;
            if k < s.len() - 1 {
                assert(s.drop_last()[k] == x);
            }
        }
        if s.drop_last().contains(x) {
            let k = choose|k: int| 0 <= k < s.drop_last().len() && s.drop_last()[k] == x;
            assert(s[k] == x);
        }
        if !d.contains(s.last()) {
            assert(d.push(s.last())[d.len() as int] == s.last());
            if d.push(s.last()).contains(x) {
                let k = choose|k: int| 0 <= k < d.len() + 1 && d.push(s.last())[k] == x;
                if k < d.len() {
                    assert(d[k] == x);
                }
            }
            if d.contains(x) {
                let k = choose|k: int| 0 <= k < d.len() && d[k] == x;
                assert(d.push(s.last())[k] == x);
            }
        }
    }
}

/// Every tag key is a candidate of every tag.
pub proof fn lemma_candidates_cover_keys(tag: Seq<char>)
    ensures
        forall|k: int| 0 <= k < 26 ==> shortcut_candidates(tag).contains(#[trigger] tag_keys()[k]),
{
    let all = tag_letters(tag) + tag_keys();
    assert forall|k: int| 0 <= k < 26 implies shortcut_candidates(tag).contains(
        #[trigger] tag_keys()[k],
    ) by {
        assert(all[tag_letters(tag).len() + k] == tag_keys()[k]);
        lemma_first_occurrences_contains(all, tag_keys()[k]);
    }
}

/// While fewer than 26 keys are used, some tag key is still free.
pub proof fn lemma_free_key_exists(used: Seq<char>)
    requires
        used.len() < 26,
    ensures
        exists|k: int| 0 <= k < 26 && !used.contains(#[trigger] tag_keys()[k]),
{
    lemma_tag_keys_distinct();
    if forall|k: int| 0 <= k < 26 ==> used.contains(#[trigger] tag_keys()[k]) {
        assert(tag_keys().to_set().subset_of(used.to_set())) by {
            assert forall|x: char| tag_keys().to_set().contains(x) implies used.to_set().contains(x) by {
                let k = choose|k: int| 0 <= k < 26 && tag_keys()[k] == x;
                assert(used.contains(tag_keys()[k]));
            }
        }
        used.lemma_cardinality_of_set();
        vstd::set_lib::lemma_len_subset(tag_keys().to_set(), used.to_set());
    }
}

/// When some candidate is unused, the first unused candidate is a candidate and unused.
pub proof fn lemma_first_unused(cands: Seq<char>, used: Seq<char>)
    requires
        exists|x: char| cands.contains(x) && !used.contains(x),
    ensures
        cands.contains(first_unused(cands, used)),
        !used.contains(first_unused(cands, used)),
    decreases cands.len(),
{
    let x = choose|x: char| cands.contains(x) && !used.contains(x);
    let k = choose|k: int| 0 <= k < cands.len() && cands[k] == x;
    if used.contains(cands[0]) {
        assert(k > 0);
        assert(cands.drop_first()[k - 1] == x);
        lemma_first_unused(cands.drop_first(), used);
        let f = first_unused(cands.drop_first(), used);
        let j = choose|j: int| 0 <= j < cands.len() - 1 && cands.drop_first()[j] == f;
        assert(cands[j + 1] == f);
    } else {
        assert(cands[0] == first_unused(cands, used));
    }
}

/// On a page of at most 26 tags, each tag's key is one of its candidates and
/// no two tags share a key.
pub proof fn lemma_binding_keys_distinct(tags: Seq<Seq<char>>)
    requires
        tags.len() <= 26,
    ensures
        binding_keys(tags).len() == tags.len(),
        binding_keys(tags).no_duplicates(),
        forall|i: int| 0 <= i < tags.len() ==> shortcut_candidates(tags[i]).contains(#[trigger] binding_keys(tags)[i]),
    decreases tags.len(),
{
    if tags.len() > 0 {
        let prev = binding_keys(tags.drop_last());
        lemma_binding_keys_distinct(tags.drop_last());
        let cands = shortcut_candidates(tags.last());
        lemma_free_key_exists(prev);
        lemma_candidates_cover_keys(tags.last());
        let k = choose|k: int| 0 <= k < 26 && !prev.contains(#[trigger] tag_keys()[k]);
        assert(cands.contains(tag_keys()[k]));
        lemma_first_unused(cands, prev);
        let key = first_unused(cands, prev);
        let keys = prev.push(key);
        assert forall|i: int, j: int| 0 <= i < keys.len() && 0 <= j < keys.len() && i != j implies keys[i] != keys[j] by {
            if i == prev.len() {
                assert(prev[j] == keys[j]);
            } else if j == prev.len() {
                assert(prev[i] == keys[i]);
            }
        }
        assert forall|i: int| 0 <= i < tags.len() implies shortcut_candidates(tags[i]).contains(
            #[trigger] binding_keys(tags)[i],
        ) by {
            if i < tags.len() - 1 {
                assert(tags.drop_last()[i] == tags[i]);
                assert(binding_keys(tags.drop_last())[i] == binding_keys(tags)[i]);
            }
        }
    }
}

/// A registered tag and the key that selects it on its page.
#[derive(Debug, Clone, PartialEq, Eq)]
pub struct TagBinding {
    pub key: char,
    pub tag: String,
}

/// The key bindings of the tags on `page` (clamped to the last existing page):
/// the tags of that page in registered order, each with the first of its
/// candidate keys that no earlier tag of the page took.
#[verifier::spinoff_prover]
#[verifier::rlimit(40)]
pub fn tag_bindings_for_page(registered_tags: &[String], page: usize) -> (r: Vec<TagBinding>)
    ensures
        r.len() == page_slice(registered_tags.deep_view(), page as int).len(),
        forall|i: int|
            0 <= i < r.len() ==> (#[trigger] r[i]).key == binding_keys(
                page_slice(registered_tags.deep_view(), page as int),
            )[i] && r[i].tag@ == page_slice(registered_tags.deep_view(), page as int)[i],
{
    let ghost all = registered_tags.deep_view();
    let ghost pt = page_slice(all, page as int);
    let len = registered_tags.len();
    let page_count = tag_page_count(len);
    let page = clamp_tag_page(page, page_count);
    assert(page * 26 <= len);
    let start = page * TAG_PAGE_SIZE;
    let end = if len - start > TAG_PAGE_SIZE {
        start + TAG_PAGE_SIZE
    } else {
        len
    };
    let mut r: Vec<TagBinding> = Vec::new();
    let mut used: Vec<char> = Vec::new();
    let mut i: usize = start;
    while i < end
        invariant
            start <= i <= end <= len,
            end - start <= 26,
            len == registered_tags.len(),
            all == registered_tags.deep_view(),
            pt == all.subrange(start as int, end as int),
            r.len() == i - start,
            used@ == binding_keys(pt.take(i - start)),
            forall|k: int|
                0 <= k < r.len() ==> (#[trigger] r[k]).key == used@[k] && r[k].tag@ == pt[k],
        decreases end - i,
    {
        let ghost prefix = pt.take(i - start);
        let ghost next = pt.take(i - start + 1);
        assert(next.drop_last() =~= prefix);
        assert(next.last() == registered_tags[i as int]@);
        proof {
            lemma_binding_keys_distinct(prefix);
            lemma_free_key_exists(used@);
            lemma_candidates_cover_keys(registered_tags[i as int]@);
        }
        let tag = registered_tags[i].clone();
        let cands = tag_shortcut_candidates(tag.as_str());
        proof {
            let k = choose|k: int| 0 <= k < 26 && !used@.contains(#[trigger] tag_keys()[k]);
            assert(cands@.contains(tag_keys()[k]));
            assert(cands@.skip(0) =~= cands@);
            assert(cands@.skip(0).contains(tag_keys()[k]) && !used@.contains(tag_keys()[k]));
        }
        let mut j: usize = 0;
        while j < cands.len() && contains_char(&used, cands[j])
            invariant
                j <= cands.len(),
                exists|x: char| cands@.skip(j as int).contains(x) && !used@.contains(x),
                first_unused(cands@, used@) == first_unused(cands@.skip(j as int), used@),
            decreases cands.len() - j,
        {
            assert(cands@.skip(j as int).drop_first() =~= cands@.skip(j + 1));
            proof {
                let x = choose|x: char| cands@.skip(j as int).contains(x) && !used@.contains(x);
                let m = choose|m: int| 0 <= m < cands@.skip(j as int).len() && cands@.skip(j as int)[m] == x;
                assert(m > 0);
                assert(cands@.skip(j + 1)[m - 1] == x);
            }
            j = j + 1;
        }
        if j >= cands.len() {
            proof {
                let x = choose|x: char| cands@.skip(j as int).contains(x) && !used@.contains(x);
                assert(cands@.skip(j as int).len() == 0);
            }
        }
        let key = cands[j];
        assert(key == first_unused(cands@, used@));
        used.push(key);
        r.push(TagBinding { key, tag });
        i = i + 1;
    }
    assert(pt.take(end - start) =~= pt);
    r
}


/// `idx` is the position of the first occurrence of `t` in `s`.
pub open spec fn is_first_index(s: Seq<Seq<char>>, t: Seq<char>, idx: int) -> bool {
    0 <= idx < s.len() && s[idx] == t && forall|j: int| 0 <= j < idx ==> s[j] != t
}

/// The page and key of `tag`: the page of its first registration, and the key
/// that its position on that page receives; `None` when it is not registered.
pub open spec fn shortcut_for_tag_spec(tags: Seq<Seq<char>>, tag: Seq<char>) -> Option<(int, char)> {
    if tags.contains(tag) {
        let idx = choose|idx: int| is_first_index(tags, tag, idx);
        Some((idx / 26, binding_keys(page_slice(tags, idx / 26))[idx % 26]))
    } else {
        None
    }
}

/// The page and key under which `tag` is selected, `None` for a tag that is not registered.
pub fn tag_shortcut_for_tag(registered_tags: &[String], tag: &str) -> (r: Option<(usize, char)>)
    ensures
        r matches Some((page, key)) ==> shortcut_for_tag_spec(registered_tags.deep_view(), tag@)
            == Some((page as int, key)),
        r is None <==> shortcut_for_tag_spec(registered_tags.deep_view(), tag@) is None,
{
    let ghost all = registered_tags.deep_view();
    let mut idx: usize = 0;
    while idx < registered_tags.len() && !crate::strings::str_eq(registered_tags[idx].as_str(), tag)
        invariant
            idx <= registered_tags.len(),
            all == registered_tags.deep_view(),
            forall|j: int| 0 <= j < idx ==> all[j] != tag@,
        decreases registered_tags.len() - idx,
    {
        idx = idx + 1;
    }
    if idx == registered_tags.len() {
        assert(!all.contains(tag@));
        return None;
    }
    assert(all[idx as int] == tag@);
    assert(is_first_index(all, tag@, idx as int));
    assert(all.contains(tag@));
    proof {
        let c = choose|c: int| is_first_index(all, tag@, c);
        if c < idx {
        } else if c > idx {
        }
        assert(c == idx);
    }
    let page = idx / TAG_PAGE_SIZE;
    let bindings = tag_bindings_for_page(registered_tags, page);
    let ghost pt = page_slice(all, page as int);
    let ghost offset = (idx % 26) as int;
    assert(pt[offset] == tag@);
    let mut b: usize = 0;
    while b < bindings.len() && !crate::strings::str_eq(bindings[b].tag.as_str(), tag)
        invariant
            b <= offset,
            offset < bindings.len(),
            pt[offset] == tag@,
            bindings.len() == pt.len(),
            forall|k: int| 0 <= k < bindings.len() ==> (#[trigger] bindings[k]).tag@ == pt[k],
        decreases bindings.len() - b,
    {
        assert(b != offset);
        b = b + 1;
    }
    assert(b == offset) by {
        if b < offset {
            assert(pt[b as int] == all[page * 26 + b]);
        }
    }
    Some((page, bindings[b].key))
}


/// All lists concatenated in order.
pub open spec fn concat_lists(lists: Seq<Seq<Seq<char>>>) -> Seq<Seq<char>>
    decreases lists.len(),
{
    if lists.len() == 0 {
        Seq::empty()
    } else {
        concat_lists(lists.drop_last()) + lists.last()
    }
}

/// One line of the tag summary: a tag and the number of repositories that carry it.
#[derive(Debug, Clone, PartialEq, Eq)]
pub struct TagSummaryEntry {
    pub tag: String,
    pub count: usize,
}

/// `a` is listed before `b` in the summary: more repositories first, then by name.
pub open spec fn summary_before(a: TagSummaryEntry, b: TagSummaryEntry) -> bool {
    a.count > b.count || (a.count == b.count && crate::strings::seq_lt(a.tag@, b.tag@))
}

/// The entries of a tag summary of `flat`: one per distinct tag, each with the
/// number of times the tag occurs.
pub open spec fn summary_entries_of(entries: Seq<TagSummaryEntry>, flat: Seq<Seq<char>>) -> bool {
    &&& forall|i: int| 0 <= i < entries.len() ==> (#[trigger] entries[i]).count == flat.to_multiset().count(entries[i].tag@)
    &&& forall|i: int| 0 <= i < entries.len() ==> flat.contains((#[trigger] entries[i]).tag@)
    &&& forall|t: Seq<char>| flat.contains(t) ==> exists|i: int| 0 <= i < entries.len() && (#[trigger] entries[i]).tag@ == t
}

/// Every tag of the lists, flattened into one vector.
pub fn flatten_tag_lists(tag_lists: &Vec<Vec<String>>) -> (r: Vec<String>)
    ensures
        r.deep_view() == concat_lists(tag_lists.deep_view()),
{
    let ghost lists = tag_lists.deep_view();
    let mut r: Vec<String> = Vec::new();
    let mut l: usize = 0;
    while l < tag_lists.len()
        invariant
            l <= tag_lists.len(),
            lists == tag_lists.deep_view(),
            r.deep_view() == concat_lists(lists.take(l as int)),
        decreases tag_lists.len() - l,
    {
        let ghost base = r.deep_view();
        let mut k: usize = 0;
        while k < tag_lists[l].len()
            invariant
                l < tag_lists.len(),
                k <= tag_lists[l as int].len(),
                lists == tag_lists.deep_view(),
                r.deep_view() == base + lists[l as int].take(k as int),
            decreases tag_lists[l as int].len() - k,
        {
            let item = tag_lists[l][k].clone();
            let ghost before = r.deep_view();
            r.push(item);
            assert(lists[l as int] == tag_lists[l as int].deep_view());
            assert(lists[l as int][k as int] == tag_lists[l as int][k as int]@);
            assert(r.deep_view() =~= before.push(item@));
            assert(r.deep_view() =~= base + lists[l as int].take(k + 1));
            k = k + 1;
        }
        assert(lists[l as int].take(lists[l as int].len() as int) =~= lists[l as int]);
        assert(lists.take(l + 1).drop_last() =~= lists.take(l as int));
        l = l + 1;
    }
    assert(lists.take(lists.len() as int) =~= lists);
    r
}

/// Counts the tags of `flat`, keeping the entries sorted by tag name.
fn count_tags(flat: &Vec<String>) -> (r: Vec<TagSummaryEntry>)
    requires
        flat.len() <= usize::MAX,
    ensures
        summary_entries_of(r@, flat.deep_view()),
        forall|i: int, j: int| 0 <= i < j < r.len() ==> crate::strings::seq_lt((#[trigger] r[i]).tag@, (#[trigger] r[j]).tag@),
{
    broadcast use vstd::seq_lib::group_to_multiset_ensures;
    let ghost all = flat.deep_view();
    let mut e: Vec<TagSummaryEntry> = Vec::new();
    let mut k: usize = 0;
    while k < flat.len()
        invariant
            k <= flat.len(),
            all == flat.deep_view(),
            summary_entries_of(e@, all.take(k as int)),
            forall|i: int| 0 <= i < e.len() ==> (#[trigger] e[i]).count <= k,
            forall|i: int, j: int| 0 <= i < j < e.len() ==> crate::strings::seq_lt((#[trigger] e[i]).tag@, (#[trigger] e[j]).tag@),
        decreases flat.len() - k,
    {
        let x = flat[k].clone();
        let ghost p = all.take(k as int);
        let ghost q = all.take(k + 1);
        assert(q =~= p.push(x@));
        assert(all[k as int] == x@);
        proof {
            p.to_multiset_ensures();
            q.to_multiset_ensures();
            assert(q.to_multiset() =~= p.to_multiset().insert(x@));
        }
        let mut i: usize = 0;
        while i < e.len() && crate::strings::str_less(e[i].tag.as_str(), x.as_str())
            invariant
                i <= e.len(),
                forall|m: int| 0 <= m < i ==> crate::strings::seq_lt((#[trigger] e[m]).tag@, x@),
            decreases e.len() - i,
        {
            i = i + 1;
        }
        if i < e.len() && e[i].tag == x {
            let ghost old_e = e@;
            let c = e[i].count + 1;
            e.set(i, TagSummaryEntry { tag: x, count: c });
            assert forall|m: int| 0 <= m < e.len() && m != i implies (#[trigger] e[m]) == old_e[m] by {}
            assert(summary_entries_of(e@, q)) by {
                assert forall|m: int| 0 <= m < e.len() implies (#[trigger] e[m]).count == q.to_multiset().count(e[m].tag@) by {
                    if m != i {
                        assert(e[m].tag@ != x@) by {
                            if m < i {
                                crate::strings::lemma_seq_lt_irreflexive(x@);
                            } else {
                                crate::strings::lemma_seq_lt_irreflexive(x@);
                            }
                        }
                    }
                }
                assert forall|m: int| 0 <= m < e.len() implies q.contains((#[trigger] e[m]).tag@) by {
                    assert(p.contains(old_e[m].tag@));
                    let w = choose|w: int| 0 <= w < p.len() && p[w] == old_e[m].tag@;
                    assert(q[w] == p[w]);
                }
                assert forall|t: Seq<char>| q.contains(t) implies exists|m: int| 0 <= m < e.len() && (#[trigger] e[m]).tag@ == t by {
                    let w = choose|w: int| 0 <= w < q.len() && q[w] == t;
                    if w < p.len() {
                        assert(p[w] == t);
                        assert(p.contains(t));
                        let m = choose|m: int| 0 <= m < old_e.len() && (#[trigger] old_e[m]).tag@ == t;
                        assert(e[m].tag@ == t);
                    } else {
                        assert(e[i as int].tag@ == t);
                    }
                }
            }
        } else {
            proof {
                if i < e.len() {
                    crate::strings::lemma_seq_lt_total(e[i as int].tag@, x@);
                }
                if p.contains(x@) {
                    let m = choose|m: int| 0 <= m < e.len() && (#[trigger] e[m]).tag@ == x@;
                    if m < i {
                        crate::strings::lemma_seq_lt_irreflexive(x@);
                    } else if m > i {
                        crate::strings::lemma_seq_lt_transitive(x@, e[i as int].tag@, e[m].tag@);
                        crate::strings::lemma_seq_lt_irreflexive(x@);
                    }
                }
                assert(p.to_multiset().count(x@) == 0);
            }
            let ghost old_e = e@;
            e.insert(i, TagSummaryEntry { tag: x, count: 1 });
            assert(e@ =~= old_e.insert(i as int, e[i as int]));
            assert forall|a: int, b: int| 0 <= a < b < e.len() implies crate::strings::seq_lt((#[trigger] e[a]).tag@, (#[trigger] e[b]).tag@) by {
                if a < i && b == i {
                } else if a < i && b > i {
                    if b - 1 > i {
                        crate::strings::lemma_seq_lt_transitive(x@, old_e[i as int].tag@, old_e[b - 1].tag@);
                    }
                    crate::strings::lemma_seq_lt_transitive(old_e[a].tag@, x@, old_e[b - 1].tag@);
                } else if a == i {
                    if b - 1 > i {
                        crate::strings::lemma_seq_lt_transitive(x@, old_e[i as int].tag@, old_e[b - 1].tag@);
                    }
                } else if b < i {
                    assert(e[a] == old_e[a] && e[b] == old_e[b]);
                } else {
                    assert(e[a] == old_e[a - 1] && e[b] == old_e[b - 1]);
                }
            }
            assert(summary_entries_of(e@, q)) by {
                assert forall|m: int| 0 <= m < e.len() implies (#[trigger] e[m]).count == q.to_multiset().count(e[m].tag@) by {
                    if m < i {
                        assert(e[m] == old_e[m]);
                        crate::strings::lemma_seq_lt_irreflexive(x@);
                    } else if m > i {
                        assert(e[m] == old_e[m - 1]);
                        if m - 1 > i {
                            crate::strings::lemma_seq_lt_transitive(x@, old_e[i as int].tag@, old_e[m - 1].tag@);
                        }
                        crate::strings::lemma_seq_lt_irreflexive(x@);
                    }
                }
                assert forall|m: int| 0 <= m < e.len() implies q.contains((#[trigger] e[m]).tag@) by {
                    if m != i {
                        let om = if m < i { m } else { m - 1 };
                        assert(e[m] == old_e[om]);
                        assert(p.contains(old_e[om].tag@));
                        let w = choose|w: int| 0 <= w < p.len() && p[w] == old_e[om].tag@;
                        assert(q[w] == p[w]);
                    } else {
                        assert(q[p.len() as int] == x@);
                    }
                }
                assert forall|t: Seq<char>| q.contains(t) implies exists|m: int| 0 <= m < e.len() && (#[trigger] e[m]).tag@ == t by {
                    let w = choose|w: int| 0 <= w < q.len() && q[w] == t;
                    if w < p.len() {
                        assert(p[w] == t);
                        assert(p.contains(t));
                        let m = choose|m: int| 0 <= m < old_e.len() && (#[trigger] old_e[m]).tag@ == t;
                        if m < i {
                            assert(e[m].tag@ == t);
                        } else {
                            assert(e[m + 1].tag@ == t);
                        }
                    } else {
                        assert(e[i as int].tag@ == t);
                    }
                }
            }
        }
        k = k + 1;
    }
    assert(all.take(all.len() as int) =~= all);
    e
}


/// Whether `a` is listed before `b` in a tag summary.
fn entry_before(a: &TagSummaryEntry, b: &TagSummaryEntry) -> (r: bool)
    ensures
        r == summary_before(*a, *b),
{
    a.count > b.count || (a.count == b.count && crate::strings::str_less(a.tag.as_str(), b.tag.as_str()))
}

/// The summary order is transitive.
pub proof fn lemma_summary_before_transitive(a: TagSummaryEntry, b: TagSummaryEntry, c: TagSummaryEntry)
    requires
        summary_before(a, b),
        summary_before(b, c),
    ensures
        summary_before(a, c),
{
    if a.count == b.count && b.count == c.count {
        crate::strings::lemma_seq_lt_transitive(a.tag@, b.tag@, c.tag@);
    }
}

/// Of two entries with different tags exactly one is listed first.
pub proof fn lemma_summary_before_total(a: TagSummaryEntry, b: TagSummaryEntry)
    ensures
        a.tag@ != b.tag@ ==> (summary_before(a, b) || summary_before(b, a)),
        !(summary_before(a, b) && summary_before(b, a)),
{
    crate::strings::lemma_seq_lt_total(a.tag@, b.tag@);
}

/// Inserts `x` into `out`, which is ordered by `summary_before` and holds no
/// entry with the tag of `x`; the result is ordered and holds `x` in addition.
fn insert_by_summary(out: &mut Vec<TagSummaryEntry>, x: TagSummaryEntry)
    requires
        forall|i: int, j: int| 0 <= i < j < old(out).len() ==> summary_before(#[trigger] old(out)[i], #[trigger] old(out)[j]),
        forall|m: int| 0 <= m < old(out).len() ==> (#[trigger] old(out)[m]).tag@ != x.tag@,
    ensures
        forall|i: int, j: int| 0 <= i < j < final(out).len() ==> summary_before(#[trigger] final(out)[i], #[trigger] final(out)[j]),
        final(out)@.to_multiset() == old(out)@.to_multiset().insert(x),
{
    let mut j: usize = 0;
    while j < out.len() && !entry_before(&x, &out[j])
        invariant
            j <= out.len(),
            forall|m: int| 0 <= m < j ==> !summary_before(x, #[trigger] out[m]),
        decreases out.len() - j,
    {
        j = j + 1;
    }
    let ghost old_out = out@;
    out.insert(j, x);
    proof {
        vstd::seq_lib::to_multiset_insert(old_out, j as int, x);
    }
    assert(out@ =~= old_out.insert(j as int, x));
    assert forall|a: int, b: int| 0 <= a < b < out.len() implies summary_before(#[trigger] out[a], #[trigger] out[b]) by {
        if a < j {
            lemma_summary_before_total(old_out[a], x);
        }
        if a < j && b == j {
        } else if a < j && b > j {
            if b - 1 > j {
                lemma_summary_before_transitive(x, old_out[j as int], old_out[b - 1]);
            }
            lemma_summary_before_transitive(old_out[a], x, old_out[b - 1]);
        } else if a == j {
            if b - 1 > j {
                lemma_summary_before_transitive(x, old_out[j as int], old_out[b - 1]);
            }
        } else if b < j {
            assert(out[a] == old_out[a] && out[b] == old_out[b]);
        } else {
            assert(out[a] == old_out[a - 1] && out[b] == old_out[b - 1]);
        }
    }
}

/// Counts how many of the given tag lists carry each tag. The summary holds one
/// entry per distinct tag with its number of occurrences, listed by count
/// (highest first) and then by tag name; empty input gives an empty summary.
pub fn summarize_tag_counts(tag_lists: &Vec<Vec<String>>) -> (r: Vec<TagSummaryEntry>)
    requires
        concat_lists(tag_lists.deep_view()).len() <= usize::MAX,
    ensures
        summary_entries_of(r@, concat_lists(tag_lists.deep_view())),
        forall|i: int, j: int| 0 <= i < j < r.len() ==> summary_before(#[trigger] r[i], #[trigger] r[j]),
{
    broadcast use vstd::seq_lib::group_to_multiset_ensures;
    let flat = flatten_tag_lists(tag_lists);
    let e = count_tags(&flat);
    let ghost es = e@;
    let mut out: Vec<TagSummaryEntry> = Vec::new();
    let mut k: usize = 0;
    while k < e.len()
        invariant
            k <= e.len(),
            es == e@,
            forall|i: int, j: int| 0 <= i < j < e.len() ==> crate::strings::seq_lt((#[trigger] e[i]).tag@, (#[trigger] e[j]).tag@),
            forall|i: int, j: int| 0 <= i < j < out.len() ==> summary_before(#[trigger] out[i], #[trigger] out[j]),
            out@.to_multiset() == es.take(k as int).to_multiset(),
        decreases e.len() - k,
    {
        let x = TagSummaryEntry { tag: e[k].tag.clone(), count: e[k].count };
        assert(x == es[k as int]);
        assert forall|m: int| 0 <= m < out.len() implies (#[trigger] out[m]).tag@ != x.tag@ by {
            assert(out@[m] == out[m]);
            assert(out@.contains(out[m]));
            vstd::seq_lib::to_multiset_contains(out@, out[m]);
            vstd::seq_lib::to_multiset_contains(es.take(k as int), out[m]);
            assert(es.take(k as int).contains(out[m]));
            let w = choose|w: int| 0 <= w < k && es.take(k as int)[w] == out[m];
            assert(crate::strings::seq_lt(es[w].tag@, es[k as int].tag@));
            crate::strings::lemma_seq_lt_irreflexive(x.tag@);
        }
        insert_by_summary(&mut out, x);
        assert(es.take(k + 1) =~= es.take(k as int).push(x));
        proof {
            vstd::seq_lib::to_multiset_build(es.take(k as int), x);
        }
        k = k + 1;
    }
    assert(es.take(es.len() as int) =~= es);
    let ghost flat_v = flat.deep_view();
    assert(summary_entries_of(out@, flat_v)) by {
        assert forall|m: int| 0 <= m < out.len() implies (#[trigger] out[m]).count == flat_v.to_multiset().count(out[m].tag@)
            && flat_v.contains(out[m].tag@) by {
            assert(out@.contains(out[m]));
            assert(out@.to_multiset().count(out[m]) > 0);
            assert(es.contains(out[m]));
            let w = choose|w: int| 0 <= w < es.len() && es[w] == out[m];
            assert(es[w] == e[w]);
        }
        assert forall|t: Seq<char>| #![trigger flat_v.contains(t)] flat_v.contains(t) implies exists|m: int| 0 <= m < out.len() && (#[trigger] out[m]).tag@ == t by {
            let w = choose|w: int| 0 <= w < e.len() && (#[trigger] e[w]).tag@ == t;
            assert(es.contains(es[w]));
            assert(out@.to_multiset().count(es[w]) > 0);
            assert(out@.contains(es[w]));
            let m = choose|m: int| 0 <= m < out.len() && out@[m] == es[w];
            assert(out[m].tag@ == t);
        }
    }
    out
}

} // verus!
