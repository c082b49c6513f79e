//! HID interface paths: telling which interfaces belong to one receiver.

use vstd::prelude::*;

verus! {

/// The characters of a string.
pub fn chars_of(s: &str) -> (r: Vec<char>)
    ensures
        r@ == s@,
{
    let mut v: Vec<char> = Vec::new();
    for c in it: s.chars()
        invariant
            v@ == it.seq().take(it.index() as int),
    {
        v.push(c);
    }
    v
}


/// ASCII lower case of one character; other characters are unchanged.
pub open spec fn ascii_lower(c: char) -> char {
    if 'A' <= c && c <= 'Z' {
        ((c as u8) + 32u8) as char
    } else {
        c
    }
}

/// ASCII lower case of a string.
pub open spec fn ascii_lower_seq(s: Seq<char>) -> Seq<char> {
    s.map_values(|c: char| ascii_lower(c))
}

fn lower_chars(s: &Vec<char>) -> (r: Vec<char>)
    ensures
        r@ == ascii_lower_seq(s@),
{
    let mut r: Vec<char> = Vec::new();
    let mut i: usize = 0;
    while i < s.len()
        invariant
            i <= s@.len(),
            r@ == ascii_lower_seq(s@.take(i as int)),
        decreases s@.len() - i,
    {
        let c = s[i];
        let l = if 'A' <= c && c <= 'Z' {
            ((c as u8) + 32) as char
        } else {
            c
        };
        r.push(l);
        proof {
            assert(s@.take(i as int + 1) == s@.take(i as int).push(c));
            assert(ascii_lower_seq(s@.take(i as int + 1)) =~= ascii_lower_seq(s@.take(i as int)).push(ascii_lower(c)));
        }
        i = i + 1;
    }
    assert(s@.take(i as int) =~= s@);
    r
}

/// The first index at or after `from` that holds `c`, or the length when
/// there is none.
pub open spec fn index_of_from(s: Seq<char>, c: char, from: int) -> int
    decreases s.len() - from,
{
    if from >= s.len() {
        s.len() as int
    } else if s[from] == c {
        from
    } else {
        index_of_from(s, c, from + 1)
    }
}

/// The last index that holds `c`, or -1 when there is none.
pub open spec fn last_index_of(s: Seq<char>, c: char, end: int) -> int
    decreases end,
{
    if end <= 0 {
        -1
    } else if s[end - 1] == c {
        end - 1
    } else {
        last_index_of(s, c, end - 1)
    }
}

/// The first index at which `pat` occurs in `s`, or the length when it does
/// not occur.
pub open spec fn find_pattern(s: Seq<char>, pat: Seq<char>, from: int) -> int
    decreases s.len() - from,
{
    if from + pat.len() > s.len() || from >= s.len() {
        s.len() as int
    } else if s.subrange(from, from + pat.len() as int) == pat {
        from
    } else {
        find_pattern(s, pat, from + 1)
    }
}

/// The collection marker that separates interfaces of one composite device.
pub open spec fn collection_marker() -> Seq<char> {
    seq!['&', 'c', 'o', 'l']
}

/// The part of a HID path that all interfaces of one device share: the model
/// field (the second `#`-separated field, cut at its `&col` collection marker)
/// and the instance field (the third, cut at its last `&`), both in ASCII
/// lower case.  A path without these fields has no container key.
pub open spec fn container_key(path: Seq<char>) -> Option<(Seq<char>, Seq<char>)> {
    let l = ascii_lower_seq(path);
    let a = index_of_from(l, '#', 0);
    let b = index_of_from(l, '#', a + 1);
    let c = index_of_from(l, '#', b + 1);
    if a >= l.len() || b >= l.len() {
        None
    } else {
        let model = l.subrange(a + 1, b);
        let instance = l.subrange(b + 1, c);
        let k = last_index_of(instance, '&', instance.len() as int);
        if k < 0 {
            None
        } else {
            Some((model.subrange(0, find_pattern(model, collection_marker(), 0)), instance.subrange(0, k)))
        }
    }
}

fn index_of_from_exec(s: &Vec<char>, c: char, from: usize) -> (r: usize)
    requires
        from <= s@.len(),
    ensures
        r == index_of_from(s@, c, from as int),
        from <= r <= s@.len(),
{
    let mut i = from;
    while i < s.len()
        invariant
            from <= i <= s@.len(),
            index_of_from(s@, c, from as int) == index_of_from(s@, c, i as int),
        decreases s@.len() - i,
    {
        if s[i] == c {
            return i;
        }
        i = i + 1;
    }
    i
}

fn last_index_of_exec(s: &Vec<char>, c: char, from: usize, to: usize) -> (r: Option<usize>)
    requires
        from <= to <= s@.len(),
    ensures
        match r {
            Some(k) => from <= k < to && k - from == last_index_of(s@.subrange(from as int, to as int), c, (to - from) as int),
            None => last_index_of(s@.subrange(from as int, to as int), c, (to - from) as int) == -1,
        },
{
    let ghost sub = s@.subrange(from as int, to as int);
    let mut end = to;
    while end > from
        invariant
            from <= end <= to,
            to <= s@.len(),
            sub == s@.subrange(from as int, to as int),
            last_index_of(sub, c, (to - from) as int) == last_index_of(sub, c, (end - from) as int),
        decreases end - from,
    {
        if s[end - 1] == c {
            assert(sub[(end - from) - 1] == s@[end - 1]);
            return Some(end - 1);
        }
        assert(sub[(end - from) - 1] == s@[end - 1]);
        end = end - 1;
    }
    None
}

fn find_pattern_exec(s: &Vec<char>, from: usize, to: usize, pat: &Vec<char>) -> (r: usize)
    requires
        from <= to <= s@.len(),
    ensures
        from + r == from + find_pattern(s@.subrange(from as int, to as int), pat@, 0),
        r <= to - from,
{
    let ghost sub = s@.subrange(from as int, to as int);
    let n = to - from;
    let m = pat.len();
    let mut i: usize = 0;
    while i < n
        invariant
            i <= n,
            n == to - from,
            m == pat@.len(),
            from <= to <= s@.len(),
            sub == s@.subrange(from as int, to as int),
            find_pattern(sub, pat@, 0) == find_pattern(sub, pat@, i as int),
        decreases n - i,
    {
        if m > n - i {
            return n;
        }
        let mut j: usize = 0;
        let mut same = true;
        while j < m
            invariant
                j <= m,
                m == pat@.len(),
                i + m <= n,
                n == to - from,
                from <= to <= s@.len(),
                sub == s@.subrange(from as int, to as int),
                same <==> (forall|k: int| 0 <= k < j ==> sub[i + k] == pat@[k]),
            decreases m - j,
        {
            if s[from + i + j] != pat[j] {
                same = false;
            }
            proof {
                assert(sub[i + j] == s@[from + i + j]);
            }
            j = j + 1;
        }
        if same {
            assert(sub.subrange(i as int, i + m) =~= pat@);
            return i;
        }
        assert(sub.subrange(i as int, i + m) != pat@) by {
            let k = choose|k: int| 0 <= k < m && sub[i + k] != pat@[k];
            assert(sub.subrange(i as int, i + m)[k] == sub[i + k]);
        }
        i = i + 1;
    }
    n
}

fn chars_equal(a: &Vec<char>, b: &Vec<char>) -> (r: bool)
    ensures
        r == (a@ == b@),
{
    if a.len() != b.len() {
        return false;
    }
    let mut i: usize = 0;
    while i < a.len()
        invariant
            a@.len() == b@.len(),
            i <= a@.len(),
            forall|k: int| 0 <= k < i ==> a@[k] == b@[k],
        decreases a@.len() - i,
    {
        if a[i] != b[i] {
            return false;
        }
        i = i + 1;
    }
    assert(a@ =~= b@);
    true
}

fn copy_range(s: &Vec<char>, from: usize, to: usize) -> (r: Vec<char>)
    requires
        from <= to <= s@.len(),
    ensures
        r@ == s@.subrange(from as int, to as int),
{
    let mut r: Vec<char> = Vec::new();
    let mut i = from;
    while i < to
        invariant
            from <= i <= to,
            to <= s@.len(),
            r@ == s@.subrange(from as int, i as int),
        decreases to - i,
    {
        r.push(s[i]);
        assert(s@.subrange(from as int, i + 1) =~= s@.subrange(from as int, i as int).push(s@[i as int]));
        i = i + 1;
    }
    r
}

/// The container key of a HID path, computed.
fn container_key_exec(path: &str) -> (r: Option<(Vec<char>, Vec<char>)>)
    ensures
        match r {
            Some((model, instance)) => container_key(path@) == Some((model@, instance@)),
            None => container_key(path@) is None,
        },
{
    let raw = chars_of(path);
    let l = lower_chars(&raw);
    let n = l.len();
    let a = index_of_from_exec(&l, '#', 0);
    if a >= n {
        return None;
    }
    let b = index_of_from_exec(&l, '#', a + 1);
    if b >= n {
        return None;
    }
    let c = index_of_from_exec(&l, '#', b + 1);
    let ghost model = l@.subrange(a + 1, b as int);
    let ghost instance = l@.subrange(b + 1, c as int);
    let k = last_index_of_exec(&l, '&', b + 1, c);
    match k {
        None => None,
        Some(k) => {
            let marker = vec!['&', 'c', 'o', 'l'];
            assert(marker@ =~= collection_marker());
            let m = find_pattern_exec(&l, a + 1, b, &marker);
            let model_part = copy_range(&l, a + 1, a + 1 + m);
            let instance_part = copy_range(&l, b + 1, k);
            proof {
                assert(model_part@ =~= model.subrange(0, m as int));
                assert(instance_part@ =~= instance.subrange(0, (k - (b + 1)) as int));
            }
            Some((model_part, instance_part))
        },
    }
}

/// Whether two HID interface paths belong to one device: both have a
/// container key, and the keys are equal.
pub open spec fn same_container(left: Seq<char>, right: Seq<char>) -> bool {
    container_key(left) is Some && container_key(left) == container_key(right)
}

/// Whether two HID interface paths belong to one device, so that replies to
/// requests sent on one may be read from the other.
pub fn same_hid_container(left: &str, right: &str) -> (r: bool)
    ensures
        r == same_container(left@, right@),
{
    let l = container_key_exec(left);
    let r = container_key_exec(right);
    match (l, r) {
        (Some((lm, li)), Some((rm, ri))) => chars_equal(&lm, &rm) && chars_equal(&li, &ri),
        _ => false,
    }
}

/// Being the same device is symmetric.
pub proof fn lemma_same_container_symmetric(a: Seq<char>, b: Seq<char>)
    ensures
        same_container(a, b) == same_container(b, a),
{
}

/// Being the same device is transitive.
pub proof fn lemma_same_container_transitive(a: Seq<char>, b: Seq<char>, c: Seq<char>)
    requires
        same_container(a, b),
        same_container(b, c),
    ensures
        same_container(a, c),
{
}

/// A path that has a container key belongs to its own device.
pub proof fn lemma_same_container_reflexive(a: Seq<char>)
    requires
        container_key(a) is Some,
    ensures
        same_container(a, a),
{
}

} // verus!
