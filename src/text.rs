use vstd::prelude::*;

verus! {

/// Characters with the Unicode `White_Space` property.
pub open spec fn is_white(c: char) -> bool {
    let u = c as u32;
    (0x09 <= u <= 0x0d) || u == 0x20 || u == 0x85 || u == 0xa0 || u == 0x1680 || (0x2000 <= u
        <= 0x200a) || u == 0x2028 || u == 0x2029 || u == 0x202f || u == 0x205f || u == 0x3000
}

pub fn white(c: char) -> (r: bool)
    ensures
        r == is_white(c),
{
    let u = c as u32;
    (0x09 <= u && u <= 0x0d) || u == 0x20 || u == 0x85 || u == 0xa0 || u == 0x1680 || (0x2000
        <= u && u <= 0x200a) || u == 0x2028 || u == 0x2029 || u == 0x202f || u == 0x205f || u
        == 0x3000
}

/// The maximal runs of non-white characters of `s`, in order.
pub open spec fn words_of(s: Seq<char>) -> Seq<Seq<char>>
    decreases s.len(),
{
    if s.len() == 0 {
        Seq::empty()
    } else {
        let prev = words_of(s.drop_last());
        let c = s.last();
        if is_white(c) {
            prev
        } else if s.len() >= 2 && !is_white(s[s.len() - 2]) {
            prev.update(prev.len() - 1, prev.last().push(c))
        } else {
            prev.push(seq![c])
        }
    }
}

/// A word of more than one character.
pub open spec fn long_word(w: Seq<char>) -> bool {
    w.len() > 1
}

/// The words of `ws` of more than one character, in order.
pub open spec fn keep_long(ws: Seq<Seq<char>>) -> Seq<Seq<char>>
    decreases ws.len(),
{
    if ws.len() == 0 {
        Seq::empty()
    } else if long_word(ws.last()) {
        keep_long(ws.drop_last()).push(ws.last())
    } else {
        keep_long(ws.drop_last())
    }
}

/// Number of distinct words in `ws`.
pub open spec fn distinct_count(ws: Seq<Seq<char>>) -> nat
    decreases ws.len(),
{
    if ws.len() == 0 {
        0
    } else if ws.drop_last().contains(ws.last()) {
        distinct_count(ws.drop_last())
    } else {
        distinct_count(ws.drop_last()) + 1
    }
}

/// Whether the three-word windows of `ws` starting at `i` and `j` are equal.
pub open spec fn same_trigram(ws: Seq<Seq<char>>, i: int, j: int) -> bool {
    ws[i] == ws[j] && ws[i + 1] == ws[j + 1] && ws[i + 2] == ws[j + 2]
}

/// Number of windows starting before `m` equal to the window at `i`.
pub open spec fn trigram_count_below(ws: Seq<Seq<char>>, i: int, m: int) -> nat
    decreases m,
{
    if m <= 0 {
        0
    } else if same_trigram(ws, i, m - 1) {
        trigram_count_below(ws, i, m - 1) + 1
    } else {
        trigram_count_below(ws, i, m - 1)
    }
}

/// Number of occurrences of the window at `i` among all windows of `ws`.
pub open spec fn trigram_count(ws: Seq<Seq<char>>, i: int) -> nat {
    trigram_count_below(ws, i, ws.len() - 2)
}

/// Some three-word window occurs three times or more.
pub open spec fn has_repeated_trigram(ws: Seq<Seq<char>>) -> bool {
    exists|i: int| 0 <= i && i + 3 <= ws.len() && #[trigger] trigram_count(ws, i) >= 3
}

/// The degenerate word patterns of a hallucinated transcript, judged on
/// the words (of more than one character) of already lower-cased text: at least
/// four words, and fewer than one distinct word in four or a three-word
/// window that occurs three times.
pub open spec fn repetitive(words: Seq<Seq<char>>) -> bool {
    &&& words.len() >= 4
    &&& (4 * distinct_count(words) < words.len() || has_repeated_trigram(words))
}

/// The words the filter judges in lower-cased text.
pub open spec fn content_words(lower: Seq<char>) -> Seq<Seq<char>> {
    keep_long(words_of(lower))
}

/// The characters of `s`, in order.
pub fn chars_of(s: &str) -> (r: Vec<char>)
    ensures
        r@ == s@,
{
    let mut out: Vec<char> = Vec::new();
    for c in it: s.chars()
        invariant
            out@ == it.seq().take(it.index() as int),
    {
        out.push(c);
    }
    assert(out@ =~= s@);
    out
}

/// The character sequences of a list of words.
pub open spec fn view_words(v: Seq<Vec<char>>) -> Seq<Seq<char>> {
    v.map_values(|w: Vec<char>| w@)
}

/// Split characters into their maximal runs of non-white characters.
pub fn split_words(s: &Vec<char>) -> (r: Vec<Vec<char>>)
    ensures
        view_words(r@) == words_of(s@),
{
    let mut done: Vec<Vec<char>> = Vec::new();
    let mut cur: Vec<char> = Vec::new();
    let mut i: usize = 0;
    assert(view_words(done@) =~= Seq::<Seq<char>>::empty());
    while i < s.len()
        invariant
            i <= s@.len(),
            cur@.len() > 0 <==> (i > 0 && !is_white(s@[i - 1])),
            words_of(s@.take(i as int)) == if cur@.len() > 0 {
                view_words(done@).push(cur@)
            } else {
                view_words(done@)
            },
        decreases s.len() - i,
    {
        let c = s[i];
        let ghost before = done@;
        assert(s@.take(i + 1).drop_last() =~= s@.take(i as int));
        assert(s@.take(i + 1).last() == c);
        if white(c) {
            if cur.len() > 0 {
                let w = cur;
                cur = Vec::new();
                done.push(w);
                assert(view_words(done@) =~= view_words(before).push(w@));
            }
        } else {
            if i > 0 {
                assert(s@.take(i + 1)[i - 1] == s@[i - 1]);
            }
            cur.push(c);
            assert(cur@.len() == 1 ==> cur@ =~= seq![c]);
        }
        i = i + 1;
    }
    let ghost before = done@;
    if cur.len() > 0 {
        done.push(cur);
        assert(view_words(done@) =~= view_words(before).push(cur@));
    }
    assert(s@.take(s@.len() as int) =~= s@);
    done
}


/// Whether two words are equal.
pub fn same_word(a: &Vec<char>, b: &Vec<char>) -> (r: bool)
    ensures
        r == (a@ == b@),
{
    if a.len() != b.len() {
        return false;
    }
    let mut i: usize = 0;
    while i < a.len()
        invariant
            i <= a@.len(),
            a@.len() == b@.len(),
            a@.take(i as int) == b@.take(i as int),
        decreases a.len() - i,
    {
        if a[i] != b[i] {
            return false;
        }
        assert(a@.take(i + 1) =~= a@.take(i as int).push(a@[i as int]));
        assert(b@.take(i + 1) =~= b@.take(i as int).push(b@[i as int]));
        i = i + 1;
    }
    assert(a@ =~= a@.take(i as int));
    assert(b@ =~= b@.take(i as int));
    true
}

fn is_long_word(w: &Vec<char>) -> (r: bool)
    ensures
        r == long_word(w@),
{
    w.len() > 1
}

/// Keep the words of more than one character, in order.
pub fn keep_long_words(ws: &Vec<Vec<char>>) -> (r: Vec<Vec<char>>)
    ensures
        view_words(r@) == keep_long(view_words(ws@)),
{
    let mut out: Vec<Vec<char>> = Vec::new();
    let mut i: usize = 0;
    assert(view_words(out@) =~= Seq::<Seq<char>>::empty());
    while i < ws.len()
        invariant
            i <= ws@.len(),
            view_words(out@) == keep_long(view_words(ws@).take(i as int)),
        decreases ws.len() - i,
    {
        let ghost before = out@;
        assert(view_words(ws@).take(i + 1).drop_last() =~= view_words(ws@).take(i as int));
        assert(view_words(ws@).take(i + 1).last() == ws@[i as int]@);
        if is_long_word(&ws[i]) {
            out.push(ws[i].clone());
            assert(view_words(out@) =~= view_words(before).push(ws@[i as int]@));
        }
        i = i + 1;
    }
    assert(view_words(ws@).take(ws@.len() as int) =~= view_words(ws@));
    out
}

fn contains_word(ws: &Vec<Vec<char>>, end: usize, w: &Vec<char>) -> (r: bool)
    requires
        end <= ws@.len(),
    ensures
        r == view_words(ws@).take(end as int).contains(w@),
{
    let mut j: usize = 0;
    while j < end
        invariant
            j <= end <= ws@.len(),
            !view_words(ws@).take(j as int).contains(w@),
        decreases end - j,
    {
        if same_word(&ws[j], w) {
            assert(view_words(ws@).take(end as int)[j as int] == w@);
            return true;
        }
        assert forall|k: int| 0 <= k < j + 1 implies #[trigger] view_words(ws@).take(j + 1)[k] != w@ by {
            if k < j {
                assert(view_words(ws@).take(j as int)[k] == view_words(ws@).take(j + 1)[k]);
            }
        }
        j = j + 1;
    }
    false
}

/// Number of distinct words.
pub fn count_distinct(ws: &Vec<Vec<char>>) -> (r: usize)
    ensures
        r == distinct_count(view_words(ws@)),
{
    let mut n: usize = 0;
    let mut i: usize = 0;
    while i < ws.len()
        invariant
            i <= ws@.len(),
            n == distinct_count(view_words(ws@).take(i as int)),
            n <= i,
        decreases ws.len() - i,
    {
        let ghost t = view_words(ws@).take(i + 1);
        assert(t.drop_last() =~= view_words(ws@).take(i as int));
        assert(t.last() == ws@[i as int]@);
        if !contains_word(ws, i, &ws[i]) {
            n = n + 1;
        }
        i = i + 1;
    }
    assert(view_words(ws@).take(ws@.len() as int) =~= view_words(ws@));
    n
}

fn trigram_equal(ws: &Vec<Vec<char>>, i: usize, j: usize) -> (r: bool)
    requires
        i + 3 <= ws@.len(),
        j + 3 <= ws@.len(),
    ensures
        r == same_trigram(view_words(ws@), i as int, j as int),
{
    let n: usize = ws.len();
    assert(i + 2 < n && j + 2 < n);
    same_word(&ws[i], &ws[j]) && same_word(&ws[i + 1], &ws[j + 1]) && same_word(
        &ws[i + 2],
        &ws[j + 2],
    )
}

/// Whether some three-word window occurs three times or more.
pub fn repeated_trigram(ws: &Vec<Vec<char>>) -> (r: bool)
    ensures
        r == has_repeated_trigram(view_words(ws@)),
{
    let ghost v = view_words(ws@);
    if ws.len() < 3 {
        return false;
    }
    let windows: usize = ws.len() - 2;
    let mut i: usize = 0;
    while i < windows
        invariant
            windows + 2 == ws@.len(),
            v == view_words(ws@),
            i <= windows,
            forall|k: int| 0 <= k < i ==> #[trigger] trigram_count(v, k) < 3,
        decreases windows - i,
    {
        let mut count: usize = 0;
        let mut j: usize = 0;
        while j < windows
            invariant
                windows + 2 == ws@.len(),
                v == view_words(ws@),
                i < windows,
                j <= windows,
                count == trigram_count_below(v, i as int, j as int),
                count <= j,
            decreases windows - j,
        {
            if trigram_equal(ws, i, j) {
                count = count + 1;
            }
            j = j + 1;
        }
        if count >= 3 {
            assert(trigram_count(v, i as int) >= 3);
            return true;
        }
        i = i + 1;
    }
    false
}

/// Judge lower-cased text: whether its words (of more than one character) show
/// the repetition of a hallucinated transcript.
pub fn repetitive_words(lower: &str) -> (r: bool)
    ensures
        r == repetitive(content_words(lower@)),
{
    let chars = chars_of(lower);
    let all = split_words(&chars);
    let words = keep_long_words(&all);
    if words.len() < 4 {
        return false;
    }
    let distinct = count_distinct(&words);
    if distinct < words.len() / 4 || (distinct == words.len() / 4 && words.len() % 4 != 0) {
        return true;
    }
    repeated_trigram(&words)
}


/// What the outside lower-case mapping gives for `s`.
pub uninterp spec fn lower_of(s: Seq<char>) -> Seq<char>;

/// Relies on `str::to_lowercase`: the Unicode lower-case mapping of the text,
/// which depends on its characters alone.
#[verifier::external_body]
fn lowercase(s: &str) -> (r: String)
    ensures
        r@ == lower_of(s@),
{
    s.to_lowercase()
}

/// A transcript judged hallucinated: 20 characters or more, whose lower-cased
/// words show the repetition that [`repetitive`] describes.
pub open spec fn hallucinated(text: Seq<char>) -> bool {
    text.len() >= 20 && repetitive(content_words(lower_of(text)))
}

/// Detect hallucinated ASR output (repetitive phrases).
pub fn is_hallucination(text: &str) -> (r: bool)
    ensures
        r == hallucinated(text@),
{
    if text.unicode_len() < 20 {
        return false;
    }
    let lower = lowercase(text);
    repetitive_words(lower.as_str())
}

/// Text shorter than 20 characters, text with fewer than four words of
/// more than one character, and text whose words hold at least one distinct word in four
/// with no three-word window occurring three times, is never judged
/// hallucinated.
pub proof fn lemma_plain_text_not_hallucinated(text: Seq<char>)
    requires
        text.len() < 20 || content_words(lower_of(text)).len() < 4 || ({
            let ws = content_words(lower_of(text));
            &&& 4 * distinct_count(ws) >= ws.len()
            &&& forall|i: int| 0 <= i && i + 3 <= ws.len() ==> #[trigger] trigram_count(ws, i) <= 2
        }),
    ensures
        !hallucinated(text),
{
}

/// `s` without its leading white characters.
pub open spec fn trim_start(s: Seq<char>) -> Seq<char>
    decreases s.len(),
{
    if s.len() > 0 && is_white(s[0]) {
        trim_start(s.drop_first())
    } else {
        s
    }
}

/// `s` without its trailing white characters.
pub open spec fn trim_end(s: Seq<char>) -> Seq<char>
    decreases s.len(),
{
    if s.len() > 0 && is_white(s.last()) {
        trim_end(s.drop_last())
    } else {
        s
    }
}

/// `s` without leading and trailing white characters.
pub open spec fn trimmed(s: Seq<char>) -> Seq<char> {
    trim_end(trim_start(s))
}

/// Remove leading and trailing white characters.
pub fn trim_white(s: &str) -> (r: String)
    ensures
        r@ == trimmed(s@),
{
    let c = chars_of(s);
    let n = c.len();
    let mut a: usize = 0;
    assert(s@.subrange(0, n as int) =~= s@);
    while a < n && white(c[a])
        invariant
            a <= n,
            n == s@.len(),
            c@ == s@,
            trim_start(s@) == trim_start(s@.subrange(a as int, n as int)),
        decreases n - a,
    {
        assert(s@.subrange(a as int, n as int).drop_first() =~= s@.subrange(a + 1, n as int));
        a = a + 1;
    }
    assert(trim_start(s@) == s@.subrange(a as int, n as int));
    let mut b: usize = n;
    while b > a && white(c[b - 1])
        invariant
            a <= b <= n,
            n == s@.len(),
            c@ == s@,
            trim_end(s@.subrange(a as int, n as int)) == trim_end(s@.subrange(a as int, b as int)),
        decreases b,
    {
        assert(s@.subrange(a as int, b as int).drop_last() =~= s@.subrange(a as int, b - 1));
        b = b - 1;
    }
    assert(trim_end(s@.subrange(a as int, b as int)) == s@.subrange(a as int, b as int));
    let t = s.substring_char(a, b);
    String::from_str(t)
}

/// The transcript a decoded token text gives: the text without leading and
/// trailing white characters, or the empty text when that is judged
/// hallucinated.
pub fn finish_transcript(decoded: &str) -> (r: String)
    ensures
        !hallucinated(trimmed(decoded@)) ==> r@ == trimmed(decoded@),
        hallucinated(trimmed(decoded@)) ==> r@ == Seq::<char>::empty(),
{
    let t = trim_white(decoded);
    if is_hallucination(t.as_str()) {
        String::new()
    } else {
        t
    }
}


/// The decimal digit character for `d < 10`.
pub open spec fn digit_char(d: nat) -> char {
    ((48 + d) as u8) as char
}

/// The decimal representation of `n`, without leading zeros.
pub open spec fn decimal(n: nat) -> Seq<char>
    decreases n,
{
    if n < 10 {
        seq![digit_char(n)]
    } else {
        decimal(n / 10).push(digit_char(n % 10))
    }
}

fn digit_str(d: u64) -> (r: &'static str)
    requires
        d < 10,
    ensures
        r@ == seq![digit_char(d as nat)],
{
    match d {
        0 => {
            proof {
                reveal_strlit("0");
            }
            "0"
        },
        1 => {
            proof {
                reveal_strlit("1");
            }
            "1"
        },
        2 => {
            proof {
                reveal_strlit("2");
            }
            "2"
        },
        3 => {
            proof {
                reveal_strlit("3");
            }
            "3"
        },
        4 => {
            proof {
                reveal_strlit("4");
            }
            "4"
        },
        5 => {
            proof {
                reveal_strlit("5");
            }
            "5"
        },
        6 => {
            proof {
                reveal_strlit("6");
            }
            "6"
        },
        7 => {
            proof {
                reveal_strlit("7");
            }
            "7"
        },
        8 => {
            proof {
                reveal_strlit("8");
            }
            "8"
        },
        _ => {
            proof {
                reveal_strlit("9");
            }
            "9"
        },
    }
}

/// Append the decimal representation of `n`.
pub fn push_decimal(out: &mut String, n: u64)
    ensures
        final(out)@ == old(out)@ + decimal(n as nat),
    decreases n,
{
    if n >= 10 {
        push_decimal(out, n / 10);
    }
    let d = digit_str(n % 10);
    out.append(d);
    assert(out@ =~= old(out)@ + decimal(n as nat));
}

} // verus!
