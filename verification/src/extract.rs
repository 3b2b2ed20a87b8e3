//! Symbol extraction: scanning free-form message text for `$TICKER`
//! mentions.
//!
//! A mention is a `$` followed by one to five uppercase ASCII letters and a
//! word boundary; an optional trailing `+` is kept as part of the symbol
//! when it sits on the boundary itself. The scan is left to right and a
//! match consumes its boundary character, so the character right after a
//! match never starts another one.

use vstd::prelude::*;

verus! {

/// An uppercase ASCII letter, the only characters a ticker is made of.
pub open spec fn is_ascii_upper(c: char) -> bool {
    'A' as u32 <= c as u32 && c as u32 <= 'Z' as u32
}

/// A word character: ASCII letter, digit or underscore. A symbol mention
/// must be followed by a non-word character or the end of the text.
pub open spec fn is_word_char(c: char) -> bool {
    ||| is_ascii_upper(c)
    ||| 'a' as u32 <= c as u32 && c as u32 <= 'z' as u32
    ||| '0' as u32 <= c as u32 && c as u32 <= '9' as u32
    ||| c == '_'
}

/// Length of the run of uppercase ASCII letters starting at position `i`.
pub open spec fn upper_run(t: Seq<char>, i: int) -> int
    decreases t.len() - i when 0 <= i <= t.len()
{
    if i >= t.len() {
        0
    } else if is_ascii_upper(t[i]) {
        1 + upper_run(t, i + 1)
    } else {
        0
    }
}

/// The run of uppercase letters at `i` stays inside the text, and it is
/// maximal: every character in it is an uppercase letter and the first
/// character after it, if any, is not.
pub proof fn lemma_upper_run(t: Seq<char>, i: int)
    requires
        0 <= i <= t.len(),
    ensures
        0 <= upper_run(t, i),
        i + upper_run(t, i) <= t.len(),
        forall|k: int| i <= k < i + upper_run(t, i) ==> is_ascii_upper(t[k]),
        i + upper_run(t, i) < t.len() ==> !is_ascii_upper(t[i + upper_run(t, i)]),
    decreases t.len() - i,
{
    if i < t.len() && is_ascii_upper(t[i]) {
        lemma_upper_run(t, i + 1);
    }
}

/// The symbol mention starting at position `i`, if any: `i` must hold a
/// `$` followed by a run of one to five uppercase letters ending on a word
/// boundary. The result is the captured symbol together with the position
/// at which the scan resumes; a boundary character (including a `+` that
/// was not captured) is consumed by the match.
pub open spec fn match_at(t: Seq<char>, i: int) -> Option<(Seq<char>, int)> {
    let r = upper_run(t, i + 1);
    if !(0 <= i < t.len()) || t[i] != '$' || r < 1 || r > 5 {
        None
    } else {
        let j = i + 1 + r;
        if j == t.len() {
            Some((t.subrange(i + 1, j), j))
        } else if t[j] == '+' {
            if j + 1 == t.len() {
                Some((t.subrange(i + 1, j + 1), j + 1))
            } else if !is_word_char(t[j + 1]) {
                Some((t.subrange(i + 1, j + 1), j + 2))
            } else {
                // the `+` itself is a non-word boundary for the bare symbol
                Some((t.subrange(i + 1, j), j + 1))
            }
        } else if !is_word_char(t[j]) {
            Some((t.subrange(i + 1, j), j + 1))
        } else {
            None
        }
    }
}

/// The symbols mentioned in `t` at or after position `i`, in order of
/// first appearance, duplicates included.
pub open spec fn extract_from(t: Seq<char>, i: int) -> Seq<Seq<char>>
    decreases t.len() - i when 0 <= i <= t.len() via extract_from_decreases
{
    if i >= t.len() {
        Seq::empty()
    } else {
        match match_at(t, i) {
            Some(m) => seq![m.0] + extract_from(t, m.1),
            None => extract_from(t, i + 1),
        }
    }
}

#[via_fn]
proof fn extract_from_decreases(t: Seq<char>, i: int) {
    if 0 <= i < t.len() {
        lemma_upper_run(t, i + 1);
    }
}

/// All symbols mentioned in `t`, scanning from the start.
pub open spec fn extract_symbols(t: Seq<char>) -> Seq<Seq<char>> {
    extract_from(t, 0)
}

/// The views of a sequence of strings, character sequence by character
/// sequence.
pub open spec fn string_views(ss: Seq<String>) -> Seq<Seq<char>> {
    ss.map_values(|x: String| x@)
}

/// A well-formed captured symbol: one to five uppercase ASCII letters,
/// optionally followed by a single `+`.
pub open spec fn wf_symbol(s: Seq<char>) -> bool {
    let letters = if s.len() > 0 && s.last() == '+' {
        s.drop_last()
    } else {
        s
    };
    &&& 1 <= letters.len() <= 5
    &&& forall|k: int| 0 <= k < letters.len() ==> is_ascii_upper(letters[k])
}

proof fn lemma_wf_from(t: Seq<char>, i: int)
    requires
        0 <= i <= t.len(),
    ensures
        forall|k: int| 0 <= k < extract_from(t, i).len() ==> wf_symbol(
            #[trigger] extract_from(t, i)[k],
        ),
    decreases t.len() - i,
{
    if i < t.len() {
        if match_at(t, i) is Some {
            let m = match_at(t, i)->0;
            let r = upper_run(t, i + 1);
            lemma_upper_run(t, i + 1);
            assert(m.0.len() == r || m.0.len() == r + 1);
            assert(wf_symbol(m.0)) by {
                if m.0.len() == r + 1 {
                    assert(m.0.last() == t[i + 1 + r]);
                    assert(m.0.drop_last() =~= t.subrange(i + 1, i + 1 + r));
                } else {
                    assert(forall|k: int| 0 <= k < m.0.len() ==> is_ascii_upper(m.0[k]));
                    assert(!(m.0.last() == '+'));
                }
            }
            lemma_wf_from(t, m.1);
            assert(extract_from(t, i) == seq![m.0] + extract_from(t, m.1));
            assert forall|k: int| 0 <= k < extract_from(t, i).len() implies wf_symbol(
                extract_from(t, i)[k],
            ) by {
                if k == 0 {
                    assert(extract_from(t, i)[0] == m.0);
                } else {
                    assert(extract_from(t, i)[k] == extract_from(t, m.1)[k - 1]);
                }
            }
        } else {
            lemma_wf_from(t, i + 1);
            assert(extract_from(t, i) == extract_from(t, i + 1));
            assert forall|k: int| 0 <= k < extract_from(t, i).len() implies wf_symbol(
                extract_from(t, i)[k],
            ) by {
                assert(extract_from(t, i)[k] == extract_from(t, i + 1)[k]);
            }
        }
    } else {
        assert(extract_from(t, i).len() == 0);
    }
}

/// Every symbol the extractor yields is one to five uppercase ASCII
/// letters, with at most a single trailing `+`: digits, lowercase letters
/// and longer runs never produce a symbol.
pub proof fn lemma_extracted_symbols_wf(t: Seq<char>)
    ensures
        forall|k: int| 0 <= k < extract_symbols(t).len() ==> wf_symbol(
            #[trigger] extract_symbols(t)[k],
        ),
{
    lemma_wf_from(t, 0);
}

fn is_upper_char(c: char) -> (r: bool)
    ensures
        r == is_ascii_upper(c),
{
    let u = c as u32;
    'A' as u32 <= u && u <= 'Z' as u32
}

fn is_word_char_exec(c: char) -> (r: bool)
    ensures
        r == is_word_char(c),
{
    let u = c as u32;
    ('A' as u32 <= u && u <= 'Z' as u32) || ('a' as u32 <= u && u <= 'z' as u32) || ('0' as u32
        <= u && u <= '9' as u32) || c == '_'
}

/// Scans a message for `$TICKER` mentions and returns the captured
/// symbols, in order of first appearance, duplicates included. Never
/// fails: text without mentions yields an empty vector.
pub fn get_symbol_names(message: &str) -> (symbols: Vec<String>)
    ensures
        string_views(symbols@) == extract_symbols(message@),
{
    let ghost t = message@;
    let n = message.unicode_len();
    let mut symbols: Vec<String> = Vec::new();
    let mut i: usize = 0;
    proof {
        assert(string_views(symbols@) + extract_from(t, 0) =~= extract_from(t, 0));
    }
    while i < n
        invariant
            i <= n,
            n == t.len(),
            message@ == t,
            string_views(symbols@) + extract_from(t, i as int) == extract_symbols(t),
        decreases n - i,
    {
        let ghost pre = symbols@;
        let c = message.get_char(i);
        if c == '$' {
            // measure the uppercase run after the dollar sign
            let mut j = i + 1;
            while j < n && is_upper_char(message.get_char(j))
                invariant
                    i + 1 <= j <= n,
                    n == t.len(),
                    message@ == t,
                    upper_run(t, i as int + 1) == j - i - 1 + upper_run(t, j as int),
                decreases n - j,
            {
                proof {
                    assert(upper_run(t, j as int) == 1 + upper_run(t, j as int + 1));
                }
                j += 1;
            }
            proof {
                assert(upper_run(t, j as int) == 0);
                assert(upper_run(t, i as int + 1) == j - i - 1);
            }
            let run = j - i - 1;
            if 1 <= run && run <= 5 {
                // a mention; find where the boundary sits and what it captures
                let end: usize;
                let sym_to: usize;
                if j == n {
                    sym_to = j;
                    end = j;
                } else {
                    let cj = message.get_char(j);
                    if cj == '+' {
                        if j + 1 == n {
                            sym_to = j + 1;
                            end = j + 1;
                        } else if !is_word_char_exec(message.get_char(j + 1)) {
                            sym_to = j + 1;
                            end = j + 2;
                        } else {
                            // the `+` itself is the boundary; capture the bare symbol
                            sym_to = j;
                            end = j + 1;
                        }
                    } else if !is_word_char_exec(cj) {
                        sym_to = j;
                        end = j + 1;
                    } else {
                        // a word character right after the letters: no boundary
                        proof {
                            assert(extract_from(t, i as int) == extract_from(t, i as int + 1));
                        }
                        i += 1;
                        continue;
                    }
                }
                let sym = message.substring_char(i + 1, sym_to).to_owned();
                symbols.push(sym);
                proof {
                    let symv = t.subrange(i as int + 1, sym_to as int);
                    assert(match_at(t, i as int) == Some((symv, end as int)));
                    assert(extract_from(t, i as int) == seq![symv] + extract_from(t, end as int));
                    assert(string_views(symbols@) =~= string_views(pre).push(symv));
                    assert(string_views(pre).push(symv) + extract_from(t, end as int)
                        =~= string_views(pre) + (seq![symv] + extract_from(t, end as int)));
                }
                i = end;
            } else {
                proof {
                    assert(extract_from(t, i as int) == extract_from(t, i as int + 1));
                }
                i += 1;
            }
        } else {
            proof {
                assert(extract_from(t, i as int) == extract_from(t, i as int + 1));
            }
            i += 1;
        }
    }
    proof {
        assert(extract_from(t, n as int) =~= Seq::<Seq<char>>::empty());
        assert(string_views(symbols@) + Seq::<Seq<char>>::empty() =~= string_views(symbols@));
    }
    symbols
}

} // verus!
