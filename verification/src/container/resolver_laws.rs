//! What holds of the choice of a profile as a whole.

use vstd::prelude::*;
use vstd::string::*;
use vstd::utf8::*;

use crate::container::resolver::{
    chosen, common_words, containment_score, default_search_paths, fallback_families, families,
    first_best, first_equal, first_related, keyword_score, law_first_best, lower_case_names,
    matched_profile, normalized, normalized_names, only_alphanumeric, search_path_list, sizes,
    unattended_choice, versions, Profile,
};
use crate::text::{decimal, has_text, letter_or_digit, lowered, trimmed, whitespace};
use crate::text_laws::{law_decimal_reads_back, law_trimming_takes_whitespace};

verus! {

// ---------------------------------------------------------------------------
// Keywords
// ---------------------------------------------------------------------------

/// The parameter counts that names are compared by.
pub open spec fn is_size(w: Seq<char>) -> bool {
    ||| w == "300m"@ || w == "500m"@ || w == "600m"@ || w == "800m"@
    ||| w == "0.5b"@ || w == "0.6b"@ || w == "0.8b"@
    ||| w == "1b"@ || w == "1.2b"@ || w == "1.5b"@ || w == "1.7b"@
    ||| w == "2b"@ || w == "2.5b"@ || w == "2.6b"@
    ||| w == "3b"@ || w == "4b"@ || w == "8b"@ || w == "9b"@
    ||| w == "14b"@ || w == "20b"@ || w == "35b"@ || w == "70b"@
}

/// The version numbers that names are compared by.
pub open spec fn is_version(w: Seq<char>) -> bool {
    ||| w == "1.0"@ || w == "1.5"@
    ||| w == "2.0"@ || w == "2.5"@
    ||| w == "3.0"@ || w == "3.1"@ || w == "3.2"@ || w == "3.5"@ || w == "3.6"@
    ||| w == "4.0"@ || w == "4.1"@
}

/// The model families that names are compared by.
pub open spec fn is_family(w: Seq<char>) -> bool {
    ||| w == "llama"@ || w == "qwen"@ || w == "gemma"@ || w == "phi"@ || w == "deepseek"@
    ||| w == "mistral"@ || w == "falcon"@ || w == "starcoder"@ || w == "baichuan"@
    ||| w == "nanbeige"@ || w == "lfm"@ || w == "whisper"@ || w == "gpt"@ || w == "aquila"@
    ||| w == "command"@ || w == "refact"@ || w == "spark"@ || w == "ornith"@
}

/// A word stands in both names.
pub open spec fn shares(a: Seq<char>, b: Seq<char>, w: Seq<char>) -> bool {
    has_text(a, w) && has_text(b, w)
}

/// Every word of one kind that a first name shares with the model, a second one shares too.
pub open spec fn shares_as_much(
    kind: spec_fn(Seq<char>) -> bool,
    model: Seq<char>,
    first: Seq<char>,
    second: Seq<char>,
) -> bool {
    forall|w: Seq<char>| kind(w) && #[trigger] shares(model, first, w) ==> shares(model, second, w)
}

proof fn lemma_sizes(k: int)
    requires
        0 <= k < 22,
    ensures
        sizes().len() == 22,
        is_size(sizes()[k]),
{
}

proof fn lemma_versions(k: int)
    requires
        0 <= k < 11,
    ensures
        versions().len() == 11,
        is_version(versions()[k]),
{
}

proof fn lemma_families(k: int)
    requires
        0 <= k < 18,
    ensures
        families().len() == 18,
        is_family(families()[k]),
{
}

proof fn lemma_size_index(w: Seq<char>) -> (k: int)
    requires
        is_size(w),
    ensures
        0 <= k < 22,
        sizes()[k] == w,
{
    let s = sizes();
    if w == s[0] {
        0
    } else if w == s[1] {
        1
    } else if w == s[2] {
        2
    } else if w == s[3] {
        3
    } else if w == s[4] {
        4
    } else if w == s[5] {
        5
    } else if w == s[6] {
        6
    } else if w == s[7] {
        7
    } else if w == s[8] {
        8
    } else if w == s[9] {
        9
    } else if w == s[10] {
        10
    } else if w == s[11] {
        11
    } else if w == s[12] {
        12
    } else if w == s[13] {
        13
    } else if w == s[14] {
        14
    } else if w == s[15] {
        15
    } else if w == s[16] {
        16
    } else if w == s[17] {
        17
    } else if w == s[18] {
        18
    } else if w == s[19] {
        19
    } else if w == s[20] {
        20
    } else {
        21
    }
}

proof fn lemma_version_index(w: Seq<char>) -> (k: int)
    requires
        is_version(w),
    ensures
        0 <= k < 11,
        versions()[k] == w,
{
    let s = versions();
    if w == s[0] {
        0
    } else if w == s[1] {
        1
    } else if w == s[2] {
        2
    } else if w == s[3] {
        3
    } else if w == s[4] {
        4
    } else if w == s[5] {
        5
    } else if w == s[6] {
        6
    } else if w == s[7] {
        7
    } else if w == s[8] {
        8
    } else if w == s[9] {
        9
    } else {
        10
    }
}

proof fn lemma_family_index(w: Seq<char>) -> (k: int)
    requires
        is_family(w),
    ensures
        0 <= k < 18,
        families()[k] == w,
{
    let s = families();
    if w == s[0] {
        0
    } else if w == s[1] {
        1
    } else if w == s[2] {
        2
    } else if w == s[3] {
        3
    } else if w == s[4] {
        4
    } else if w == s[5] {
        5
    } else if w == s[6] {
        6
    } else if w == s[7] {
        7
    } else if w == s[8] {
        8
    } else if w == s[9] {
        9
    } else if w == s[10] {
        10
    } else if w == s[11] {
        11
    } else if w == s[12] {
        12
    } else if w == s[13] {
        13
    } else if w == s[14] {
        14
    } else if w == s[15] {
        15
    } else if w == s[16] {
        16
    } else {
        17
    }
}

/// A name that shares every listed word that another one shares has at least as many in common;
/// with one more it has more.
proof fn lemma_more_in_common(
    words: Seq<Seq<char>>,
    model: Seq<char>,
    a: Seq<char>,
    b: Seq<char>,
    n: nat,
)
    requires
        n <= words.len(),
        forall|k: int|
            0 <= k < n && shares(model, a, #[trigger] words[k]) ==> shares(model, b, words[k]),
    ensures
        common_words(words, model, a, n) <= common_words(words, model, b, n),
        (exists|k: int|
            0 <= k < n && shares(model, b, #[trigger] words[k]) && !shares(model, a, words[k]))
            ==> common_words(words, model, a, n) < common_words(words, model, b, n),
        (forall|k: int| 0 <= k < n ==> !shares(model, b, #[trigger] words[k])) ==> common_words(
            words,
            model,
            b,
            n,
        ) == 0,
        common_words(words, model, b, n) <= n,
    decreases n,
{
    if n > 0 {
        lemma_more_in_common(words, model, a, b, (n - 1) as nat);
        let w = words[n - 1];
        assert(shares(model, a, w) ==> shares(model, b, w));
        if exists|k: int|
            0 <= k < n && shares(model, b, #[trigger] words[k]) && !shares(model, a, words[k]) {
            let k = choose|k: int|
                0 <= k < n && shares(model, b, #[trigger] words[k]) && !shares(model, a, words[k]);
            if k < n - 1 {
                assert(shares(model, b, words[k]) && !shares(model, a, words[k]));
            }
        }
    }
}

proof fn lemma_kinds(model: Seq<char>, a: Seq<char>, b: Seq<char>)
    ensures
        shares_as_much(|w: Seq<char>| is_size(w), model, a, b) ==> common_words(
            sizes(),
            model,
            a,
            22,
        ) <= common_words(sizes(), model, b, 22),
        shares_as_much(|w: Seq<char>| is_version(w), model, a, b) ==> common_words(
            versions(),
            model,
            a,
            11,
        ) <= common_words(versions(), model, b, 11),
        shares_as_much(|w: Seq<char>| is_family(w), model, a, b) ==> common_words(
            families(),
            model,
            a,
            18,
        ) <= common_words(families(), model, b, 18),
{
    let size = |w: Seq<char>| is_size(w);
    let version = |w: Seq<char>| is_version(w);
    let family = |w: Seq<char>| is_family(w);
    if shares_as_much(size, model, a, b) {
        assert forall|k: int| 0 <= k < 22 && shares(model, a, #[trigger] sizes()[k]) implies shares(
            model,
            b,
            sizes()[k],
        ) by {
            lemma_sizes(k);
            assert(size(sizes()[k]));
        }
        lemma_more_in_common(sizes(), model, a, b, 22);
    }
    if shares_as_much(version, model, a, b) {
        assert forall|k: int|
            0 <= k < 11 && shares(model, a, #[trigger] versions()[k]) implies shares(
            model,
            b,
            versions()[k],
        ) by {
            lemma_versions(k);
            assert(version(versions()[k]));
        }
        lemma_more_in_common(versions(), model, a, b, 11);
    }
    if shares_as_much(family, model, a, b) {
        assert forall|k: int|
            0 <= k < 18 && shares(model, a, #[trigger] families()[k]) implies shares(
            model,
            b,
            families()[k],
        ) by {
            lemma_families(k);
            assert(family(families()[k]));
        }
        lemma_more_in_common(families(), model, a, b, 18);
    }
}

/// The weight of a word.
pub open spec fn weight_of(w: Seq<char>) -> nat {
    if is_size(w) {
        20
    } else if is_version(w) {
        15
    } else {
        10
    }
}

/// Every listed word counts: a name that shares all words with the model that another one shares,
/// and one more besides, scores higher by at least the weight of that word: twenty for a parameter
/// count, fifteen for a version, ten for a family. Names that share no listed word score nothing.
pub proof fn law_each_shared_word_counts(
    model: Seq<char>,
    a: Seq<char>,
    b: Seq<char>,
    w: Seq<char>,
)
    requires
        shares_as_much(|v: Seq<char>| is_size(v), model, a, b),
        shares_as_much(|v: Seq<char>| is_version(v), model, a, b),
        shares_as_much(|v: Seq<char>| is_family(v), model, a, b),
        is_size(w) || is_version(w) || is_family(w),
        shares(model, b, w),
        !shares(model, a, w),
    ensures
        keyword_score(model, b) >= keyword_score(model, a) + weight_of(w),
{
    lemma_kinds(model, a, b);
    if is_size(w) {
        let k = lemma_size_index(w);
        assert forall|i: int| 0 <= i < 22 && shares(model, a, #[trigger] sizes()[i]) implies shares(
            model,
            b,
            sizes()[i],
        ) by {
            lemma_sizes(i);
            assert((|v: Seq<char>| is_size(v))(sizes()[i]));
        }
        assert(shares(model, b, sizes()[k]) && !shares(model, a, sizes()[k]));
        lemma_more_in_common(sizes(), model, a, b, 22);
    } else if is_version(w) {
        let k = lemma_version_index(w);
        assert forall|i: int|
            0 <= i < 11 && shares(model, a, #[trigger] versions()[i]) implies shares(
            model,
            b,
            versions()[i],
        ) by {
            lemma_versions(i);
            assert((|v: Seq<char>| is_version(v))(versions()[i]));
        }
        assert(shares(model, b, versions()[k]) && !shares(model, a, versions()[k]));
        lemma_more_in_common(versions(), model, a, b, 11);
    } else {
        let k = lemma_family_index(w);
        assert forall|i: int|
            0 <= i < 18 && shares(model, a, #[trigger] families()[i]) implies shares(
            model,
            b,
            families()[i],
        ) by {
            lemma_families(i);
            assert((|v: Seq<char>| is_family(v))(families()[i]));
        }
        assert(shares(model, b, families()[k]) && !shares(model, a, families()[k]));
        lemma_more_in_common(families(), model, a, b, 18);
    }
}

proof fn lemma_sizes_differ(i: int, j: int)
    requires
        0 <= i < j < 22,
    ensures
        sizes()[i] != sizes()[j],
{
    reveal_strlit("300m");
    reveal_strlit("500m");
    reveal_strlit("600m");
    reveal_strlit("800m");
    reveal_strlit("0.5b");
    reveal_strlit("0.6b");
    reveal_strlit("0.8b");
    reveal_strlit("1b");
    reveal_strlit("1.2b");
    reveal_strlit("1.5b");
    reveal_strlit("1.7b");
    reveal_strlit("2b");
    reveal_strlit("2.5b");
    reveal_strlit("2.6b");
    reveal_strlit("3b");
    reveal_strlit("4b");
    reveal_strlit("8b");
    reveal_strlit("9b");
    reveal_strlit("14b");
    reveal_strlit("20b");
    reveal_strlit("35b");
    reveal_strlit("70b");
    let s = sizes();
    assert(s[0].len() == 4 && s[0][0] == '3' && s[0][1] == '0' && s[0][2] == '0');
    assert(s[1].len() == 4 && s[1][0] == '5' && s[1][1] == '0' && s[1][2] == '0');
    assert(s[2].len() == 4 && s[2][0] == '6' && s[2][1] == '0' && s[2][2] == '0');
    assert(s[3].len() == 4 && s[3][0] == '8' && s[3][1] == '0' && s[3][2] == '0');
    assert(s[4].len() == 4 && s[4][0] == '0' && s[4][1] == '.' && s[4][2] == '5');
    assert(s[5].len() == 4 && s[5][0] == '0' && s[5][1] == '.' && s[5][2] == '6');
    assert(s[6].len() == 4 && s[6][0] == '0' && s[6][1] == '.' && s[6][2] == '8');
    assert(s[7].len() == 2 && s[7][0] == '1' && s[7][1] == 'b');
    assert(s[8].len() == 4 && s[8][0] == '1' && s[8][1] == '.' && s[8][2] == '2');
    assert(s[9].len() == 4 && s[9][0] == '1' && s[9][1] == '.' && s[9][2] == '5');
    assert(s[10].len() == 4 && s[10][0] == '1' && s[10][1] == '.' && s[10][2] == '7');
    assert(s[11].len() == 2 && s[11][0] == '2' && s[11][1] == 'b');
    assert(s[12].len() == 4 && s[12][0] == '2' && s[12][1] == '.' && s[12][2] == '5');
    assert(s[13].len() == 4 && s[13][0] == '2' && s[13][1] == '.' && s[13][2] == '6');
    assert(s[14].len() == 2 && s[14][0] == '3' && s[14][1] == 'b');
    assert(s[15].len() == 2 && s[15][0] == '4' && s[15][1] == 'b');
    assert(s[16].len() == 2 && s[16][0] == '8' && s[16][1] == 'b');
    assert(s[17].len() == 2 && s[17][0] == '9' && s[17][1] == 'b');
    assert(s[18].len() == 3 && s[18][0] == '1' && s[18][1] == '4' && s[18][2] == 'b');
    assert(s[19].len() == 3 && s[19][0] == '2' && s[19][1] == '0' && s[19][2] == 'b');
    assert(s[20].len() == 3 && s[20][0] == '3' && s[20][1] == '5' && s[20][2] == 'b');
    assert(s[21].len() == 3 && s[21][0] == '7' && s[21][1] == '0' && s[21][2] == 'b');
}

proof fn lemma_versions_differ(i: int, j: int)
    requires
        0 <= i < j < 11,
    ensures
        versions()[i] != versions()[j],
{
    reveal_strlit("1.0");
    reveal_strlit("1.5");
    reveal_strlit("2.0");
    reveal_strlit("2.5");
    reveal_strlit("3.0");
    reveal_strlit("3.1");
    reveal_strlit("3.2");
    reveal_strlit("3.5");
    reveal_strlit("3.6");
    reveal_strlit("4.0");
    reveal_strlit("4.1");
    let s = versions();
    assert(s[0].len() == 3 && s[0][0] == '1' && s[0][1] == '.' && s[0][2] == '0');
    assert(s[1].len() == 3 && s[1][0] == '1' && s[1][1] == '.' && s[1][2] == '5');
    assert(s[2].len() == 3 && s[2][0] == '2' && s[2][1] == '.' && s[2][2] == '0');
    assert(s[3].len() == 3 && s[3][0] == '2' && s[3][1] == '.' && s[3][2] == '5');
    assert(s[4].len() == 3 && s[4][0] == '3' && s[4][1] == '.' && s[4][2] == '0');
    assert(s[5].len() == 3 && s[5][0] == '3' && s[5][1] == '.' && s[5][2] == '1');
    assert(s[6].len() == 3 && s[6][0] == '3' && s[6][1] == '.' && s[6][2] == '2');
    assert(s[7].len() == 3 && s[7][0] == '3' && s[7][1] == '.' && s[7][2] == '5');
    assert(s[8].len() == 3 && s[8][0] == '3' && s[8][1] == '.' && s[8][2] == '6');
    assert(s[9].len() == 3 && s[9][0] == '4' && s[9][1] == '.' && s[9][2] == '0');
    assert(s[10].len() == 3 && s[10][0] == '4' && s[10][1] == '.' && s[10][2] == '1');
}

proof fn lemma_families_differ(i: int, j: int)
    requires
        0 <= i < j < 18,
    ensures
        families()[i] != families()[j],
{
    reveal_strlit("llama");
    reveal_strlit("qwen");
    reveal_strlit("gemma");
    reveal_strlit("phi");
    reveal_strlit("deepseek");
    reveal_strlit("mistral");
    reveal_strlit("falcon");
    reveal_strlit("starcoder");
    reveal_strlit("baichuan");
    reveal_strlit("nanbeige");
    reveal_strlit("lfm");
    reveal_strlit("whisper");
    reveal_strlit("gpt");
    reveal_strlit("aquila");
    reveal_strlit("command");
    reveal_strlit("refact");
    reveal_strlit("spark");
    reveal_strlit("ornith");
    let s = families();
    assert(s[0].len() == 5 && s[0][0] == 'l' && s[0][1] == 'l' && s[0][2] == 'a');
    assert(s[1].len() == 4 && s[1][0] == 'q' && s[1][1] == 'w' && s[1][2] == 'e');
    assert(s[2].len() == 5 && s[2][0] == 'g' && s[2][1] == 'e' && s[2][2] == 'm');
    assert(s[3].len() == 3 && s[3][0] == 'p' && s[3][1] == 'h' && s[3][2] == 'i');
    assert(s[4].len() == 8 && s[4][0] == 'd' && s[4][1] == 'e' && s[4][2] == 'e');
    assert(s[5].len() == 7 && s[5][0] == 'm' && s[5][1] == 'i' && s[5][2] == 's');
    assert(s[6].len() == 6 && s[6][0] == 'f' && s[6][1] == 'a' && s[6][2] == 'l');
    assert(s[7].len() == 9 && s[7][0] == 's' && s[7][1] == 't' && s[7][2] == 'a');
    assert(s[8].len() == 8 && s[8][0] == 'b' && s[8][1] == 'a' && s[8][2] == 'i');
    assert(s[9].len() == 8 && s[9][0] == 'n' && s[9][1] == 'a' && s[9][2] == 'n');
    assert(s[10].len() == 3 && s[10][0] == 'l' && s[10][1] == 'f' && s[10][2] == 'm');
    assert(s[11].len() == 7 && s[11][0] == 'w' && s[11][1] == 'h' && s[11][2] == 'i');
    assert(s[12].len() == 3 && s[12][0] == 'g' && s[12][1] == 'p' && s[12][2] == 't');
    assert(s[13].len() == 6 && s[13][0] == 'a' && s[13][1] == 'q' && s[13][2] == 'u');
    assert(s[14].len() == 7 && s[14][0] == 'c' && s[14][1] == 'o' && s[14][2] == 'm');
    assert(s[15].len() == 6 && s[15][0] == 'r' && s[15][1] == 'e' && s[15][2] == 'f');
    assert(s[16].len() == 5 && s[16][0] == 's' && s[16][1] == 'p' && s[16][2] == 'a');
    assert(s[17].len() == 6 && s[17][0] == 'o' && s[17][1] == 'r' && s[17][2] == 'n');
}

proof fn lemma_one_more_counts(
    words: Seq<Seq<char>>,
    model: Seq<char>,
    a: Seq<char>,
    b: Seq<char>,
    n: nat,
    k: int,
)
    requires
        n <= words.len(),
        0 <= k < words.len(),
        forall|i: int|
            0 <= i < n && i != k ==> shares(model, a, #[trigger] words[i]) == shares(
                model,
                b,
                words[i],
            ),
        shares(model, b, words[k]),
        !shares(model, a, words[k]),
    ensures
        common_words(words, model, b, n) == common_words(words, model, a, n) + if k < n {
            1nat
        } else {
            0
        },
    decreases n,
{
    if n > 0 {
        lemma_one_more_counts(words, model, a, b, (n - 1) as nat, k);
        if n - 1 != k {
            assert(shares(model, a, words[n - 1]) == shares(model, b, words[n - 1]));
        }
    }
}

proof fn lemma_same_count(
    words: Seq<Seq<char>>,
    model: Seq<char>,
    a: Seq<char>,
    b: Seq<char>,
    n: nat,
)
    requires
        n <= words.len(),
        forall|i: int|
            0 <= i < n ==> shares(model, a, #[trigger] words[i]) == shares(model, b, words[i]),
    ensures
        common_words(words, model, b, n) == common_words(words, model, a, n),
    decreases n,
{
    if n > 0 {
        lemma_same_count(words, model, a, b, (n - 1) as nat);
        assert(shares(model, a, words[n - 1]) == shares(model, b, words[n - 1]));
    }
}

proof fn lemma_kinds_differ(w: Seq<char>)
    ensures
        !(is_size(w) && is_version(w)),
        !(is_size(w) && is_family(w)),
        !(is_version(w) && is_family(w)),
{
    reveal_strlit("300m");
    reveal_strlit("500m");
    reveal_strlit("600m");
    reveal_strlit("800m");
    reveal_strlit("0.5b");
    reveal_strlit("0.6b");
    reveal_strlit("0.8b");
    reveal_strlit("1b");
    reveal_strlit("1.2b");
    reveal_strlit("1.5b");
    reveal_strlit("1.7b");
    reveal_strlit("2b");
    reveal_strlit("2.5b");
    reveal_strlit("2.6b");
    reveal_strlit("3b");
    reveal_strlit("4b");
    reveal_strlit("8b");
    reveal_strlit("9b");
    reveal_strlit("14b");
    reveal_strlit("20b");
    reveal_strlit("35b");
    reveal_strlit("70b");
    reveal_strlit("1.0");
    reveal_strlit("1.5");
    reveal_strlit("2.0");
    reveal_strlit("2.5");
    reveal_strlit("3.0");
    reveal_strlit("3.1");
    reveal_strlit("3.2");
    reveal_strlit("3.5");
    reveal_strlit("3.6");
    reveal_strlit("4.0");
    reveal_strlit("4.1");
    reveal_strlit("llama");
    reveal_strlit("qwen");
    reveal_strlit("gemma");
    reveal_strlit("phi");
    reveal_strlit("deepseek");
    reveal_strlit("mistral");
    reveal_strlit("falcon");
    reveal_strlit("starcoder");
    reveal_strlit("baichuan");
    reveal_strlit("nanbeige");
    reveal_strlit("lfm");
    reveal_strlit("whisper");
    reveal_strlit("gpt");
    reveal_strlit("aquila");
    reveal_strlit("command");
    reveal_strlit("refact");
    reveal_strlit("spark");
    reveal_strlit("ornith");
    if is_size(w) {
        assert('0' <= w[0] <= '9');
        assert(w.last() == 'b' || w.last() == 'm');
    }
    if is_version(w) {
        assert('0' <= w[0] <= '9');
        assert('0' <= w.last() <= '9');
    }
    if is_family(w) {
        assert('a' <= w[0] <= 'z');
    }
}

/// A shared word counts its own weight and no more: names that share the same listed words with
/// the model but for one differ in score by the weight of that word. So a parameter count weighs
/// more than a version, and a version more than a family.
pub proof fn law_each_word_has_its_weight(
    model: Seq<char>,
    a: Seq<char>,
    b: Seq<char>,
    w: Seq<char>,
)
    requires
        is_size(w) || is_version(w) || is_family(w),
        shares(model, b, w),
        !shares(model, a, w),
        forall|v: Seq<char>|
            v != w && (is_size(v) || is_version(v) || is_family(v)) ==> shares(model, a, v)
                == #[trigger] shares(model, b, v),
    ensures
        keyword_score(model, b) == keyword_score(model, a) + weight_of(w),
        is_size(w) ==> weight_of(w) == 20,
        is_version(w) ==> weight_of(w) == 15,
        is_family(w) ==> weight_of(w) == 10,
{
    lemma_kinds_differ(w);
    if is_size(w) {
        let k = lemma_size_index(w);
        assert forall|i: int| 0 <= i < 22 && i != k implies shares(model, a, #[trigger] sizes()[i])
            == shares(model, b, sizes()[i]) by {
            lemma_sizes(i);
            if i < k {
                lemma_sizes_differ(i, k);
            } else {
                lemma_sizes_differ(k, i);
            }
        }
        lemma_one_more_counts(sizes(), model, a, b, 22, k);
    } else {
        assert forall|i: int| 0 <= i < 22 implies shares(model, a, #[trigger] sizes()[i])
            == shares(model, b, sizes()[i]) by {
            lemma_sizes(i);
        }
        lemma_same_count(sizes(), model, a, b, 22);
    }
    if is_version(w) {
        let k = lemma_version_index(w);
        assert forall|i: int|
            0 <= i < 11 && i != k implies shares(model, a, #[trigger] versions()[i]) == shares(
            model,
            b,
            versions()[i],
        ) by {
            lemma_versions(i);
            if i < k {
                lemma_versions_differ(i, k);
            } else {
                lemma_versions_differ(k, i);
            }
        }
        lemma_one_more_counts(versions(), model, a, b, 11, k);
    } else {
        assert forall|i: int| 0 <= i < 11 implies shares(model, a, #[trigger] versions()[i])
            == shares(model, b, versions()[i]) by {
            lemma_versions(i);
        }
        lemma_same_count(versions(), model, a, b, 11);
    }
    if is_family(w) {
        let k = lemma_family_index(w);
        assert forall|i: int|
            0 <= i < 18 && i != k implies shares(model, a, #[trigger] families()[i]) == shares(
            model,
            b,
            families()[i],
        ) by {
            lemma_families(i);
            if i < k {
                lemma_families_differ(i, k);
            } else {
                lemma_families_differ(k, i);
            }
        }
        lemma_one_more_counts(families(), model, a, b, 18, k);
    } else {
        assert forall|i: int| 0 <= i < 18 implies shares(model, a, #[trigger] families()[i])
            == shares(model, b, families()[i]) by {
            lemma_families(i);
        }
        lemma_same_count(families(), model, a, b, 18);
    }
}

/// Names without a listed word in common with the model score nothing.
pub proof fn law_nothing_shared_scores_nothing(model: Seq<char>, name: Seq<char>)
    requires
        forall|w: Seq<char>|
            (is_size(w) || is_version(w) || is_family(w)) ==> !#[trigger] shares(model, name, w),
    ensures
        keyword_score(model, name) == 0,
{
    assert forall|k: int| 0 <= k < 22 implies !shares(model, name, #[trigger] sizes()[k]) by {
        lemma_sizes(k);
    }
    assert forall|k: int| 0 <= k < 11 implies !shares(model, name, #[trigger] versions()[k]) by {
        lemma_versions(k);
    }
    assert forall|k: int| 0 <= k < 18 implies !shares(model, name, #[trigger] families()[k]) by {
        lemma_families(k);
    }
    lemma_more_in_common(sizes(), model, name, name, 22);
    lemma_more_in_common(versions(), model, name, name, 11);
    lemma_more_in_common(families(), model, name, name, 18);
}

// ---------------------------------------------------------------------------
// Matching
// ---------------------------------------------------------------------------

/// No profile has the model's name, a part of it, or it as a part.
pub open spec fn none_by_name(model: Seq<char>, ps: Seq<Profile>) -> bool {
    forall|k: int|
        0 <= k < ps.len() ==> {
            let name = normalized((#[trigger] ps[k]).name);
            !has_text(normalized(model), name) && !has_text(name, normalized(model))
        }
}

proof fn lemma_none_equal(v: Seq<Seq<char>>, t: Seq<char>, i: int)
    requires
        0 <= i,
        forall|k: int| 0 <= k < v.len() ==> #[trigger] v[k] != t,
    ensures
        first_equal(v, t, i) is None,
    decreases v.len() - i,
{
    if i < v.len() {
        assert(v[i] != t);
        lemma_none_equal(v, t, i + 1);
    }
}

proof fn lemma_text_has_itself(s: Seq<char>)
    ensures
        has_text(s, s),
{
    assert(s.subrange(0, s.len() as int) =~= s);
    assert(crate::text::occurs_at(s, s, 0));
}

/// Where names alone decide nothing, keywords do.
proof fn lemma_by_keywords(model: Seq<char>, ps: Seq<Profile>)
    requires
        none_by_name(model, ps),
    ensures
        matched_profile(model, ps) == first_best(
            lower_case_names(ps).map_values(|n: Seq<char>| keyword_score(lowered(model), n)),
        ),
{
    let norm = normalized(model);
    let names = normalized_names(ps);
    assert forall|k: int| 0 <= k < names.len() implies #[trigger] names[k] != norm by {
        assert(names[k] == normalized(ps[k].name));
        lemma_text_has_itself(norm);
    }
    lemma_none_equal(names, norm, 0);
    let scores = names.map_values(|n: Seq<char>| containment_score(norm, n));
    law_first_best(scores);
    assert forall|k: int| 0 <= k < scores.len() implies #[trigger] scores[k] == 0 by {
        assert(names[k] == normalized(ps[k].name));
    }
}

/// Where no profile has the model's name, a part of it or it as a part, the profile with more in
/// common is preferred: a profile is not taken where another one shares every family, version and
/// parameter count that it shares with the model, and one more of any of them.
pub proof fn law_more_in_common_is_preferred(
    model: Seq<char>,
    ps: Seq<Profile>,
    i: int,
    j: int,
    w: Seq<char>,
)
    requires
        none_by_name(model, ps),
        0 <= i < ps.len(),
        0 <= j < ps.len(),
        shares_as_much(
            |v: Seq<char>| is_size(v),
            lowered(model),
            lowered(ps[j].name),
            lowered(ps[i].name),
        ),
        shares_as_much(
            |v: Seq<char>| is_version(v),
            lowered(model),
            lowered(ps[j].name),
            lowered(ps[i].name),
        ),
        shares_as_much(
            |v: Seq<char>| is_family(v),
            lowered(model),
            lowered(ps[j].name),
            lowered(ps[i].name),
        ),
        is_size(w) || is_version(w) || is_family(w),
        shares(lowered(model), lowered(ps[i].name), w),
        !shares(lowered(model), lowered(ps[j].name), w),
    ensures
        matched_profile(model, ps) is Some,
        matched_profile(model, ps) != Some(j),
{
    let lower = lowered(model);
    let names = lower_case_names(ps);
    let scores = names.map_values(|n: Seq<char>| keyword_score(lower, n));
    lemma_by_keywords(model, ps);
    law_each_shared_word_counts(lower, lowered(ps[j].name), lowered(ps[i].name), w);
    law_first_best(scores);
    assert(names[i] == lowered(ps[i].name));
    assert(names[j] == lowered(ps[j].name));
    assert(scores[i] == keyword_score(lower, names[i]));
    assert(scores[j] == keyword_score(lower, names[j]));
    assert(scores[i] > scores[j]);
}

/// The profile that is taken by keywords has the highest score, and of several the first; a model
/// that shares no listed word with any profile has no match.
pub proof fn law_best_score_is_taken(model: Seq<char>, ps: Seq<Profile>)
    requires
        none_by_name(model, ps),
    ensures
        match matched_profile(model, ps) {
            Some(b) => {
                &&& 0 <= b < ps.len()
                &&& keyword_score(lowered(model), lowered(ps[b].name)) > 0
                &&& forall|k: int|
                    0 <= k < ps.len() ==> keyword_score(
                        lowered(model),
                        lowered((#[trigger] ps[k]).name),
                    ) <= keyword_score(lowered(model), lowered(ps[b].name))
                &&& forall|k: int|
                    0 <= k < b ==> keyword_score(lowered(model), lowered((#[trigger] ps[k]).name))
                        < keyword_score(lowered(model), lowered(ps[b].name))
            },
            None => forall|k: int|
                0 <= k < ps.len() ==> keyword_score(
                    lowered(model),
                    lowered((#[trigger] ps[k]).name),
                ) == 0,
        },
{
    let lower = lowered(model);
    let names = lower_case_names(ps);
    let scores = names.map_values(|n: Seq<char>| keyword_score(lower, n));
    lemma_by_keywords(model, ps);
    law_first_best(scores);
    assert forall|k: int| 0 <= k < ps.len() implies scores[k] == keyword_score(
        lower,
        lowered((#[trigger] ps[k]).name),
    ) by {
        assert(names[k] == lowered(ps[k].name));
    }
}

/// A profile whose name is part of the model's, or has it as a part, goes before all profiles that
/// only share words with it, and the longer such name before the shorter; the model's own name
/// goes before all of them. Names are compared without case and by letters and digits alone.
pub proof fn law_longest_contained_name_is_taken(model: Seq<char>, ps: Seq<Profile>, i: int)
    requires
        0 <= i < ps.len(),
        normalized(ps[i].name).len() > 0,
        has_text(normalized(model), normalized(ps[i].name)) || has_text(
            normalized(ps[i].name),
            normalized(model),
        ),
    ensures
        matched_profile(model, ps) is Some,
        ({
            let b = matched_profile(model, ps)->0;
            let name = normalized(ps[b].name);
            &&& 0 <= b < ps.len()
            &&& has_text(normalized(model), name) || has_text(name, normalized(model))
            &&& name == normalized(model) || encode_utf8(name).len() >= encode_utf8(
                normalized(ps[i].name),
            ).len()
            &&& normalized(ps[i].name) == normalized(model) ==> name == normalized(model)
        }),
{
    let norm = normalized(model);
    let names = normalized_names(ps);
    let scores = names.map_values(|n: Seq<char>| containment_score(norm, n));
    law_first_best(scores);
    assert(names[i] == normalized(ps[i].name));
    assert(scores[i] == containment_score(norm, names[i]));
    lemma_some_bytes(names[i]);
    lemma_equal_found(names, norm, 0);
    lemma_text_has_itself(norm);
    if first_equal(names, norm, 0) is None {
        let b = first_best(scores)->0;
        assert(names[b] == normalized(ps[b].name));
        assert(scores[b] == containment_score(norm, names[b]));
        assert(names[i] != norm);
    } else {
        let b = first_equal(names, norm, 0)->0;
        assert(names[b] == normalized(ps[b].name));
    }
}

proof fn lemma_equal_found(v: Seq<Seq<char>>, t: Seq<char>, i: int)
    requires
        0 <= i,
    ensures
        match first_equal(v, t, i) {
            Some(k) => i <= k < v.len() && v[k] == t,
            None => forall|k: int| i <= k < v.len() ==> #[trigger] v[k] != t,
        },
    decreases v.len() - i,
{
    if i < v.len() && v[i] != t {
        lemma_equal_found(v, t, i + 1);
    }
}

proof fn lemma_some_bytes(s: Seq<char>)
    requires
        s.len() > 0,
    ensures
        encode_utf8(s).len() > 0,
{
    encode_utf8_decode_utf8(s);
    if encode_utf8(s).len() == 0 {
        assert(decode_utf8(encode_utf8(s)) =~= Seq::empty());
    }
}

/// Comparing names by letters and digits: each letter and digit counts, in order, and nothing else
/// does.
pub proof fn law_only_letters_and_digits_count(s: Seq<char>, c: char)
    ensures
        letter_or_digit(c) ==> only_alphanumeric(s.push(c)) == only_alphanumeric(s).push(c),
        !letter_or_digit(c) ==> only_alphanumeric(s.push(c)) == only_alphanumeric(s),
        only_alphanumeric(Seq::empty()) == Seq::<char>::empty(),
        normalized(s) == lowered(only_alphanumeric(s)),
{
    assert(s.push(c).drop_last() =~= s);
}

// ---------------------------------------------------------------------------
// Choices
// ---------------------------------------------------------------------------

/// The number of a profile chooses it: counted from one, with whitespace around it or none. Other
/// numbers choose nothing.
pub proof fn law_number_chooses_its_profile(
    before: Seq<char>,
    k: nat,
    after: Seq<char>,
    n: nat,
)
    requires
        forall|i: int| 0 <= i < before.len() ==> whitespace(#[trigger] before[i]),
        forall|i: int| 0 <= i < after.len() ==> whitespace(#[trigger] after[i]),
        n <= usize::MAX,
    ensures
        1 <= k <= n ==> chosen(before + decimal(k) + after, n) == Some(k - 1),
        k == 0 || k > n ==> chosen(before + decimal(k) + after, n) is None,
{
    let d = decimal(k);
    law_decimal_reads_back(k, usize::MAX as nat);
    assert(crate::text::is_digit(d[0]));
    assert(crate::text::is_digit(d[d.len() - 1]));
    lemma_digits_are_no_whitespace(d[0]);
    lemma_digits_are_no_whitespace(d[d.len() - 1]);
    law_trimming_takes_whitespace(before, d, after);
    assert(trimmed(before + d + after) == d);
}

proof fn lemma_digits_are_no_whitespace(c: char)
    requires
        crate::text::is_digit(c),
    ensures
        !whitespace(c),
        c != '+',
{
}

/// A line without a number chooses nothing.
pub proof fn law_other_lines_choose_nothing(line: Seq<char>, n: nat)
    requires
        forall|i: int| 0 <= i < line.len() ==> !crate::text::is_digit(#[trigger] line[i]),
    ensures
        chosen(line, n) is None,
{
    let t = trimmed(line);
    lemma_trimmed_part(line);
    if t.len() > 0 {
        assert(!crate::text::is_digit(t[0]));
        if t.len() > 1 {
            assert(t.skip(1)[0] == t[1]);
            assert(!crate::text::is_digit(t[1]));
        }
    }
}

proof fn lemma_trimmed_part(line: Seq<char>)
    requires
        forall|i: int| 0 <= i < line.len() ==> !crate::text::is_digit(#[trigger] line[i]),
    ensures
        forall|i: int| 0 <= i < trimmed(line).len() ==> !crate::text::is_digit(
            #[trigger] trimmed(line)[i],
        ),
{
    lemma_leading_bound(line);
    let s = crate::text::trimmed_start(line);
    lemma_trailing_bound(s);
    let t = trimmed(line);
    assert forall|i: int| 0 <= i < t.len() implies !crate::text::is_digit(#[trigger] t[i]) by {
        assert(t[i] == s[i]);
        assert(s[i] == line[i + crate::text::leading_whitespace(line)]);
    }
}

proof fn lemma_leading_bound(s: Seq<char>)
    ensures
        crate::text::leading_whitespace(s) <= s.len(),
    decreases s.len(),
{
    if s.len() > 0 && whitespace(s[0]) {
        lemma_leading_bound(s.skip(1));
    }
}

proof fn lemma_trailing_bound(s: Seq<char>)
    ensures
        crate::text::trailing_whitespace(s) <= s.len(),
    decreases s.len(),
{
    if s.len() > 0 && whitespace(s.last()) {
        lemma_trailing_bound(s.drop_last());
    }
}

/// The families by which a profile is chosen where nobody can be asked.
pub open spec fn is_known_family(w: Seq<char>) -> bool {
    ||| w == "deepseek"@ || w == "qwen"@ || w == "gemma"@ || w == "llama"@ || w == "phi"@
    ||| w == "mistral"@ || w == "lfm"@ || w == "whisper"@ || w == "gpt"@
}

proof fn lemma_fallback_family(k: int)
    requires
        0 <= k < 9,
    ensures
        fallback_families().len() == 9,
        is_known_family(fallback_families()[k]),
{
}

proof fn lemma_fallback_index(w: Seq<char>) -> (k: int)
    requires
        is_known_family(w),
    ensures
        0 <= k < 9,
        fallback_families()[k] == w,
{
    let s = fallback_families();
    if w == s[0] {
        0
    } else if w == s[1] {
        1
    } else if w == s[2] {
        2
    } else if w == s[3] {
        3
    } else if w == s[4] {
        4
    } else if w == s[5] {
        5
    } else if w == s[6] {
        6
    } else if w == s[7] {
        7
    } else {
        8
    }
}

/// Two names share one of the families.
pub open spec fn related(model: Seq<char>, name: Seq<char>) -> bool {
    exists|w: Seq<char>| is_known_family(w) && #[trigger] shares(model, name, w)
}

proof fn lemma_related(model: Seq<char>, name: Seq<char>)
    ensures
        common_words(fallback_families(), model, name, 9) > 0 <==> related(model, name),
{
    if related(model, name) {
        let w = choose|w: Seq<char>| is_known_family(w) && #[trigger] shares(model, name, w);
        let k = lemma_fallback_index(w);
        lemma_counted(fallback_families(), model, name, 9, k);
    } else {
        assert forall|k: int| 0 <= k < 9 implies !shares(
            model,
            name,
            #[trigger] fallback_families()[k],
        ) by {
            lemma_fallback_family(k);
        }
        lemma_more_in_common(fallback_families(), model, name, name, 9);
    }
}

proof fn lemma_counted(words: Seq<Seq<char>>, model: Seq<char>, name: Seq<char>, n: nat, k: int)
    requires
        0 <= k < n,
        shares(model, name, words[k]),
    ensures
        common_words(words, model, name, n) > 0,
    decreases n,
{
    if k < n - 1 {
        lemma_counted(words, model, name, (n - 1) as nat, k);
    }
}

/// Where nobody can be asked, the first profile that shares a family with the model is taken, and
/// the first of all where none does.
pub proof fn law_unattended_choice(model: Seq<char>, names: Seq<Seq<char>>)
    requires
        names.len() > 0,
    ensures
        ({
            let c = unattended_choice(model, names);
            &&& 0 <= c < names.len()
            &&& forall|k: int| 0 <= k < c ==> !related(model, #[trigger] names[k])
            &&& related(model, names[c]) || c == 0 && forall|k: int|
                0 <= k < names.len() ==> !related(model, #[trigger] names[k])
        }),
{
    lemma_first_related(model, names, 0);
}

proof fn lemma_first_related(model: Seq<char>, names: Seq<Seq<char>>, i: int)
    requires
        0 <= i,
    ensures
        match first_related(model, names, i) {
            Some(c) => {
                &&& i <= c < names.len()
                &&& related(model, names[c])
                &&& forall|k: int| i <= k < c ==> !related(model, #[trigger] names[k])
            },
            None => forall|k: int| i <= k < names.len() ==> !related(model, #[trigger] names[k]),
        },
    decreases names.len() - i,
{
    if i < names.len() {
        lemma_related(model, names[i]);
        lemma_first_related(model, names, i + 1);
    }
}

/// The directories that are searched: a given one first, then those of the two environment
/// variables, then the one in the home directory, then the seven default ones in their order.
pub proof fn law_search_paths_have_an_order(
    custom: Option<&str>,
    llama: Option<&str>,
    apu: Option<&str>,
    home: Option<&str>,
)
    ensures
        ({
            let all = search_path_list(custom, llama, apu, home);
            let a: int = if custom is Some {
                1
            } else {
                0
            };
            let b: int = a + if llama is Some {
                1int
            } else {
                0
            };
            let c: int = b + if apu is Some {
                1int
            } else {
                0
            };
            let d: int = c + if home is Some {
                1int
            } else {
                0
            };
            &&& all.len() == d + 7
            &&& custom is Some ==> all[0] == custom->0@
            &&& llama is Some ==> all[a] == llama->0@
            &&& apu is Some ==> all[b] == apu->0@
            &&& home is Some && home->0@.len() > 0 && home->0@.last() != '/' ==> all[c]
                == home->0@ + "/"@ + ".local/share/llama-apu/xclbins"@
            &&& all[d] == "/usr/local/share/llama-apu/xclbins"@
            &&& all[d + 1] == "/usr/local/share/apu-backend/xclbins"@
            &&& all[d + 2] == "/opt/llama-apu/xclbins"@
            &&& all[d + 3] == "/opt/fastflowlm/share/flm/xclbins"@
            &&& all[d + 4] == "/home/fencer/.openclaw/workspace/projects/fastflowlm/src/xclbins"@
            &&& all[d + 5] == "./xclbins"@
            &&& all[d + 6] == "../xclbins"@
        }),
{
    let all = search_path_list(custom, llama, apu, home);
    let tail = default_search_paths();
    let d = all.len() - 7;
    assert(tail.len() == 7);
    assert forall|k: int| 0 <= k < 7 implies all[d + k] == #[trigger] tail[k] by {}
    assert(all[d] == tail[0]);
    assert(all[d + 1] == tail[1]);
    assert(all[d + 2] == tail[2]);
    assert(all[d + 3] == tail[3]);
    assert(all[d + 4] == tail[4]);
    assert(all[d + 5] == tail[5]);
    assert(all[d + 6] == tail[6]);
}

/// A number may have a plus sign before it.
pub proof fn law_plus_sign_changes_nothing(k: nat, n: nat)
    requires
        n <= usize::MAX,
    ensures
        1 <= k <= n ==> chosen(seq!['+'] + decimal(k), n) == Some(k - 1),
        k == 0 || k > n ==> chosen(seq!['+'] + decimal(k), n) is None,
{
    let d = decimal(k);
    let s = seq!['+'] + d;
    crate::text_laws::law_decimal_reads_back(k, usize::MAX as nat);
    assert(crate::text::is_digit(d[d.len() - 1]));
    assert(s.last() == d[d.len() - 1]);
    lemma_digits_are_no_whitespace(s.last());
    assert(s[0] == '+');
    crate::text::lemma_trimmed_already(s);
    assert(s.skip(1) =~= d);
}

} // verus!
