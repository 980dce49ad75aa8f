//! Keyboard actions of mapping rules, and the key-combo parser.

use vstd::prelude::*;

use crate::text::{
    chars_eq_str, chars_of, debug_quoted, lower, lower_chars, str_debug, trim, trim_range,
};

verus! {

/// A keyboard key that an action can press.
#[derive(Debug, Clone, Copy, PartialEq, Eq, Structural)]
pub enum Key {
    Control,
    Shift,
    Alt,
    Meta,
    Unicode(char),
    Tab,
    Return,
    UpArrow,
    DownArrow,
    LeftArrow,
    RightArrow,
    Escape,
    Backspace,
    Delete,
    F1,
    F2,
    F3,
    F4,
    F5,
    F6,
    F7,
    F8,
    F9,
    F10,
    F11,
    F12,
}

/// Parsed keyboard shortcut emitted when a mapping is triggered.
#[derive(Debug, Clone)]
pub struct KeyCombo {
    /// Modifier keys pressed before the primary key.
    pub modifiers: Vec<Key>,
    /// Primary key clicked while modifiers are held.
    pub key: Key,
    /// The combo string as written in the configuration.
    pub raw: String,
}

/// Action payload used by mapping rules.
#[derive(Debug, Clone)]
pub struct Action {
    /// Parsed keyboard shortcut for this action.
    pub keys: KeyCombo,
}

/// Why a key-combo string was refused.
#[derive(Debug, Clone, Copy, PartialEq, Eq)]
pub enum KeyComboErrorKind {
    /// No token at all.
    Empty,
    /// A modifier token names no modifier.
    UnsupportedModifier,
    /// The primary-key token is empty.
    MissingPrimaryKey,
    /// The primary-key token names no key.
    UnsupportedPrimaryKey,
}

/// A refused key combo: why, and the token at fault (empty for `Empty`).
#[derive(Debug)]
pub struct KeyComboError {
    pub kind: KeyComboErrorKind,
    pub token: String,
}

/// The pieces of `s` between `+` signs (as `str::split('+')` yields them).
pub open spec fn split_plus(s: Seq<char>) -> Seq<Seq<char>>
    decreases s.len(),
{
    if s.len() == 0 {
        seq![Seq::<char>::empty()]
    } else {
        let parts = split_plus(s.drop_last());
        if s.last() == '+' {
            parts.push(Seq::<char>::empty())
        } else {
            parts.update(parts.len() - 1, parts.last().push(s.last()))
        }
    }
}

/// The trimmed pieces of `parts` that are not empty, in order.
pub open spec fn nonempty_trimmed(parts: Seq<Seq<char>>) -> Seq<Seq<char>>
    decreases parts.len(),
{
    if parts.len() == 0 {
        Seq::empty()
    } else {
        let rest = nonempty_trimmed(parts.drop_last());
        if trim(parts.last()).len() > 0 {
            rest.push(trim(parts.last()))
        } else {
            rest
        }
    }
}

/// The tokens of a combo string: its `+`-separated pieces, trimmed, empty ones dropped.
pub open spec fn combo_tokens(raw: Seq<char>) -> Seq<Seq<char>> {
    nonempty_trimmed(split_plus(raw))
}

/// The modifier a lower-cased token names.
pub open spec fn modifier_key(l: Seq<char>) -> Option<Key> {
    if l == "ctrl"@ || l == "control"@ {
        Some(Key::Control)
    } else if l == "shift"@ {
        Some(Key::Shift)
    } else if l == "alt"@ || l == "opt"@ || l == "option"@ {
        Some(Key::Alt)
    } else if l == "cmd"@ || l == "command"@ || l == "meta"@ || l == "super"@ {
        Some(Key::Meta)
    } else {
        None
    }
}

/// The named key a lower-cased token names (`space` is the space character).
pub open spec fn named_key(l: Seq<char>) -> Option<Key> {
    if l == "space"@ {
        Some(Key::Unicode(' '))
    } else if l == "tab"@ {
        Some(Key::Tab)
    } else if l == "enter"@ || l == "return"@ {
        Some(Key::Return)
    } else if l == "up"@ {
        Some(Key::UpArrow)
    } else if l == "down"@ {
        Some(Key::DownArrow)
    } else if l == "left"@ {
        Some(Key::LeftArrow)
    } else if l == "right"@ {
        Some(Key::RightArrow)
    } else if l == "esc"@ || l == "escape"@ {
        Some(Key::Escape)
    } else if l == "backspace"@ {
        Some(Key::Backspace)
    } else if l == "delete"@ {
        Some(Key::Delete)
    } else {
        None
    }
}

/// The function key a lower-cased token names (`f1` to `f12`).
pub open spec fn function_key(l: Seq<char>) -> Option<Key> {
    if l == "f1"@ {
        Some(Key::F1)
    } else if l == "f2"@ {
        Some(Key::F2)
    } else if l == "f3"@ {
        Some(Key::F3)
    } else if l == "f4"@ {
        Some(Key::F4)
    } else if l == "f5"@ {
        Some(Key::F5)
    } else if l == "f6"@ {
        Some(Key::F6)
    } else if l == "f7"@ {
        Some(Key::F7)
    } else if l == "f8"@ {
        Some(Key::F8)
    } else if l == "f9"@ {
        Some(Key::F9)
    } else if l == "f10"@ {
        Some(Key::F10)
    } else if l == "f11"@ {
        Some(Key::F11)
    } else if l == "f12"@ {
        Some(Key::F12)
    } else {
        None
    }
}

/// The primary key a token names: a named key, a function key, or a single character.
pub open spec fn primary_key(token: Seq<char>) -> Result<Key, KeyComboErrorKind> {
    match named_key(lower(token)) {
        Some(k) => Ok(k),
        None => match function_key(lower(token)) {
            Some(k) => Ok(k),
            None => if token.len() == 0 {
                Err(KeyComboErrorKind::MissingPrimaryKey)
            } else if token.len() == 1 {
                Ok(Key::Unicode(token[0]))
            } else {
                Err(KeyComboErrorKind::UnsupportedPrimaryKey)
            },
        },
    }
}

/// The modifiers that the tokens `mods` name, in order, or the first token
/// that names none.
pub open spec fn modifier_keys(mods: Seq<Seq<char>>) -> Result<Seq<Key>, Seq<char>>
    decreases mods.len(),
{
    if mods.len() == 0 {
        Ok(Seq::empty())
    } else {
        match modifier_keys(mods.drop_last()) {
            Err(t) => Err(t),
            Ok(keys) => match modifier_key(lower(mods.last())) {
                Some(k) => Ok(keys.push(k)),
                None => Err(mods.last()),
            },
        }
    }
}

/// What a combo string parses to: the modifiers (every token but the last)
/// and the primary key (the last token), or the error and the token at fault.
pub open spec fn parse_combo(raw: Seq<char>) -> Result<(Seq<Key>, Key), (KeyComboErrorKind, Seq<char>)> {
    let toks = combo_tokens(raw);
    if toks.len() == 0 {
        Err((KeyComboErrorKind::Empty, Seq::empty()))
    } else {
        match modifier_keys(toks.drop_last()) {
            Err(t) => Err((KeyComboErrorKind::UnsupportedModifier, t)),
            Ok(keys) => match primary_key(toks.last()) {
                Ok(k) => Ok((keys, k)),
                Err(kind) => Err((kind, toks.last())),
            },
        }
    }
}

proof fn lemma_split_plus_nonempty(s: Seq<char>)
    ensures
        split_plus(s).len() >= 1,
    decreases s.len(),
{
    if s.len() > 0 {
        lemma_split_plus_nonempty(s.drop_last());
    }
}

/// The views of a list of character vectors.
pub open spec fn views(v: Seq<Vec<char>>) -> Seq<Seq<char>> {
    v.map_values(|t: Vec<char>| t@)
}

/// The tokens of a combo string.
fn tokenize(s: &Vec<char>) -> (r: Vec<Vec<char>>)
    ensures
        views(r@) == combo_tokens(s@),
{
    let mut tokens: Vec<Vec<char>> = Vec::new();
    let mut start: usize = 0;
    let mut i: usize = 0;
    proof {
        assert(s@.take(0) =~= Seq::<char>::empty());
        assert(views(tokens@) =~= nonempty_trimmed(split_plus(s@.take(0)).drop_last()));
        assert(s@.subrange(0, 0) =~= split_plus(s@.take(0)).last());
    }
    while i < s.len()
        invariant
            0 <= start <= i <= s@.len(),
            views(tokens@) == nonempty_trimmed(split_plus(s@.take(i as int)).drop_last()),
            split_plus(s@.take(i as int)).last() == s@.subrange(start as int, i as int),
        decreases s.len() - i,
    {
        let ghost parts = split_plus(s@.take(i as int));
        proof {
            lemma_split_plus_nonempty(s@.take(i as int));
            assert(s@.take(i + 1).drop_last() =~= s@.take(i as int));
            assert(s@.take(i + 1).last() == s@[i as int]);
        }
        if s[i] == '+' {
            let t = trim_range(s, start, i);
            let ghost before = tokens@;
            if t.len() > 0 {
                tokens.push(t);
            }
            proof {
                let np = split_plus(s@.take(i + 1));
                assert(np == parts.push(Seq::<char>::empty()));
                assert(np.drop_last() =~= parts);
                assert(parts.drop_last().push(parts.last()) =~= parts);
                assert(nonempty_trimmed(parts) == (if trim(parts.last()).len() > 0 {
                    nonempty_trimmed(parts.drop_last()).push(trim(parts.last()))
                } else {
                    nonempty_trimmed(parts.drop_last())
                }));
                assert(views(tokens@) =~= nonempty_trimmed(np.drop_last()));
                assert(np.last() =~= s@.subrange(i + 1, i + 1));
            }
            start = i + 1;
        } else {
            proof {
                let np = split_plus(s@.take(i + 1));
                assert(np == parts.update(parts.len() - 1, parts.last().push(s@[i as int])));
                assert(np.drop_last() =~= parts.drop_last());
                assert(np.last() =~= s@.subrange(start as int, i + 1));
            }
        }
        i = i + 1;
    }
    let t = trim_range(s, start, i);
    if t.len() > 0 {
        tokens.push(t);
    }
    proof {
        let parts = split_plus(s@.take(i as int));
        assert(s@.take(i as int) =~= s@);
        lemma_split_plus_nonempty(s@);
        assert(parts.drop_last().push(parts.last()) =~= parts);
        assert(views(tokens@) =~= combo_tokens(s@));
    }
    tokens
}

/// The modifier a lower-cased token names.
fn modifier_of(l: &Vec<char>) -> (r: Option<Key>)
    ensures
        r == modifier_key(l@),
{
    if chars_eq_str(l, "ctrl") || chars_eq_str(l, "control") {
        Some(Key::Control)
    } else if chars_eq_str(l, "shift") {
        Some(Key::Shift)
    } else if chars_eq_str(l, "alt") || chars_eq_str(l, "opt") || chars_eq_str(l, "option") {
        Some(Key::Alt)
    } else if chars_eq_str(l, "cmd") || chars_eq_str(l, "command") || chars_eq_str(l, "meta")
        || chars_eq_str(l, "super") {
        Some(Key::Meta)
    } else {
        None
    }
}

/// The named key a lower-cased token names.
fn named_key_of(l: &Vec<char>) -> (r: Option<Key>)
    ensures
        r == named_key(l@),
{
    if chars_eq_str(l, "space") {
        Some(Key::Unicode(' '))
    } else if chars_eq_str(l, "tab") {
        Some(Key::Tab)
    } else if chars_eq_str(l, "enter") || chars_eq_str(l, "return") {
        Some(Key::Return)
    } else if chars_eq_str(l, "up") {
        Some(Key::UpArrow)
    } else if chars_eq_str(l, "down") {
        Some(Key::DownArrow)
    } else if chars_eq_str(l, "left") {
        Some(Key::LeftArrow)
    } else if chars_eq_str(l, "right") {
        Some(Key::RightArrow)
    } else if chars_eq_str(l, "esc") || chars_eq_str(l, "escape") {
        Some(Key::Escape)
    } else if chars_eq_str(l, "backspace") {
        Some(Key::Backspace)
    } else if chars_eq_str(l, "delete") {
        Some(Key::Delete)
    } else {
        None
    }
}

/// The function key a lower-cased token names.
fn parse_function_key(l: &Vec<char>) -> (r: Option<Key>)
    ensures
        r == function_key(l@),
{
    if chars_eq_str(l, "f1") {
        Some(Key::F1)
    } else if chars_eq_str(l, "f2") {
        Some(Key::F2)
    } else if chars_eq_str(l, "f3") {
        Some(Key::F3)
    } else if chars_eq_str(l, "f4") {
        Some(Key::F4)
    } else if chars_eq_str(l, "f5") {
        Some(Key::F5)
    } else if chars_eq_str(l, "f6") {
        Some(Key::F6)
    } else if chars_eq_str(l, "f7") {
        Some(Key::F7)
    } else if chars_eq_str(l, "f8") {
        Some(Key::F8)
    } else if chars_eq_str(l, "f9") {
        Some(Key::F9)
    } else if chars_eq_str(l, "f10") {
        Some(Key::F10)
    } else if chars_eq_str(l, "f11") {
        Some(Key::F11)
    } else if chars_eq_str(l, "f12") {
        Some(Key::F12)
    } else {
        None
    }
}

/// The primary key a token names.
fn parse_primary_key(token: &Vec<char>) -> (r: Result<Key, KeyComboErrorKind>)
    ensures
        r == primary_key(token@),
{
    let l = lower_chars(token);
    match named_key_of(&l) {
        Some(k) => {
            return Ok(k);
        },
        None => {},
    }
    match parse_function_key(&l) {
        Some(k) => {
            return Ok(k);
        },
        None => {},
    }
    if token.len() == 0 {
        Err(KeyComboErrorKind::MissingPrimaryKey)
    } else if token.len() == 1 {
        Ok(Key::Unicode(token[0]))
    } else {
        Err(KeyComboErrorKind::UnsupportedPrimaryKey)
    }
}

/// Parses a human-readable key combo such as `Cmd+Shift+3`.
///
/// Tokens are separated by `+`; every token but the last is a modifier
/// (`Ctrl`/`Control`, `Shift`, `Alt`/`Opt`/`Option`, `Cmd`/`Command`/`Meta`/`Super`,
/// in any ASCII case); the last is the primary key: `Space`, `Tab`,
/// `Enter`/`Return`, the arrows, `Esc`/`Escape`, `Backspace`, `Delete`,
/// `F1` to `F12`, or one character.
pub fn parse_key_combo(raw: &str) -> (r: Result<KeyCombo, KeyComboError>)
    ensures
        match r {
            Ok(c) => parse_combo(raw@) == Ok::<(Seq<Key>, Key), (KeyComboErrorKind, Seq<char>)>(
                (c.modifiers@, c.key),
            ) && c.raw@ == raw@,
            Err(e) => parse_combo(raw@) == Err::<(Seq<Key>, Key), (KeyComboErrorKind, Seq<char>)>(
                (e.kind, e.token@),
            ),
        },
{
    let s = chars_of(raw);
    let parts = tokenize(&s);
    let ghost toks = combo_tokens(raw@);
    if parts.len() == 0 {
        return Err(KeyComboError { kind: KeyComboErrorKind::Empty, token: String::new() });
    }
    let last = parts.len() - 1;
    let mut modifiers: Vec<Key> = Vec::new();
    let mut i: usize = 0;
    while i < last
        invariant
            0 <= i <= last,
            last == parts@.len() - 1,
            views(parts@) == toks,
            toks == combo_tokens(raw@),
            modifier_keys(toks.take(i as int)) == Ok::<Seq<Key>, Seq<char>>(modifiers@),
        decreases last - i,
    {
        proof {
            assert(toks.take(i + 1).drop_last() =~= toks.take(i as int));
            assert(toks.take(i + 1).last() == parts@[i as int]@);
        }
        let l = lower_chars(&parts[i]);
        match modifier_of(&l) {
            Some(k) => modifiers.push(k),
            None => {
                proof {
                    assert(toks.drop_last().take(i as int) =~= toks.take(i as int));
                    assert(toks.drop_last()[i as int] == parts@[i as int]@);
                    lemma_modifier_error_persists(toks.drop_last(), i as int);
                }
                return Err(
                    KeyComboError {
                        kind: KeyComboErrorKind::UnsupportedModifier,
                        token: crate::text::string_of(&parts[i]),
                    },
                );
            },
        }
        i = i + 1;
    }
    proof {
        assert(toks.take(last as int) =~= toks.drop_last());
    }
    match parse_primary_key(&parts[last]) {
        Ok(key) => Ok(KeyCombo { modifiers, key, raw: String::from_str(raw) }),
        Err(kind) => Err(KeyComboError { kind, token: crate::text::string_of(&parts[last]) }),
    }
}

proof fn lemma_modifier_error_persists(mods: Seq<Seq<char>>, i: int)
    requires
        0 <= i < mods.len(),
        modifier_keys(mods.take(i)) is Ok,
        modifier_key(lower(mods[i])) is None,
    ensures
        modifier_keys(mods) == Err::<Seq<Key>, Seq<char>>(mods[i]),
    decreases mods.len(),
{
    if i < mods.len() - 1 {
        assert(mods.drop_last().take(i) =~= mods.take(i));
        lemma_modifier_error_persists(mods.drop_last(), i);
    } else {
        assert(mods.take(i) =~= mods.drop_last());
    }
}

impl KeyComboError {
    /// The human-readable description of the error.
    pub fn message(&self) -> (m: String)
        ensures
            m@ == (match self.kind {
                KeyComboErrorKind::Empty => "key combo cannot be empty"@,
                KeyComboErrorKind::UnsupportedModifier => "unsupported modifier "@ + str_debug(self.token@),
                KeyComboErrorKind::MissingPrimaryKey => "missing primary key"@,
                KeyComboErrorKind::UnsupportedPrimaryKey => "unsupported primary key "@ + str_debug(self.token@),
            }),
    {
        match self.kind {
            KeyComboErrorKind::Empty => String::from_str("key combo cannot be empty"),
            KeyComboErrorKind::UnsupportedModifier => String::from_str("unsupported modifier ").concat(
                debug_quoted(self.token.as_str()).as_str(),
            ),
            KeyComboErrorKind::MissingPrimaryKey => String::from_str("missing primary key"),
            KeyComboErrorKind::UnsupportedPrimaryKey => String::from_str("unsupported primary key ").concat(
                debug_quoted(self.token.as_str()).as_str(),
            ),
        }
    }
}


/// A combo written out: each word followed by `+`, then the last token.
pub open spec fn join_plus(words: Seq<Seq<char>>, last: Seq<char>) -> Seq<char>
    decreases words.len(),
{
    if words.len() == 0 {
        last
    } else {
        words[0] + seq!['+'] + join_plus(words.drop_first(), last)
    }
}

/// `s` holds no `+`.
pub open spec fn no_plus(s: Seq<char>) -> bool {
    forall|i: int| 0 <= i < s.len() ==> #[trigger] s[i] != '+'
}

/// A token that the tokenizer keeps as it is: non-empty, no `+`, and no
/// whitespace at either end.
pub open spec fn clean_token(s: Seq<char>) -> bool {
    &&& s.len() > 0
    &&& no_plus(s)
    &&& trim(s) == s
}

proof fn lemma_split_plus_no_plus(s: Seq<char>)
    requires
        no_plus(s),
    ensures
        split_plus(s) == seq![s],
    decreases s.len(),
{
    if s.len() > 0 {
        assert(no_plus(s.drop_last()));
        lemma_split_plus_no_plus(s.drop_last());
        assert(s.last() != '+');
        assert(s.drop_last().push(s.last()) =~= s);
        assert(seq![s.drop_last()].update(0, s.drop_last().push(s.last())) =~= seq![s]);
    } else {
        assert(s =~= Seq::<char>::empty());
    }
}

proof fn lemma_split_plus_after(a: Seq<char>, b: Seq<char>)
    requires
        no_plus(a),
    ensures
        split_plus(a + seq!['+'] + b) == seq![a] + split_plus(b),
    decreases b.len(),
{
    let s = a + seq!['+'] + b;
    if b.len() == 0 {
        assert(s.drop_last() =~= a);
        assert(s.last() == '+');
        lemma_split_plus_no_plus(a);
        assert(seq![a].push(Seq::<char>::empty()) =~= seq![a] + split_plus(b));
    } else {
        lemma_split_plus_after(a, b.drop_last());
        assert(s.drop_last() =~= a + seq!['+'] + b.drop_last());
        assert(s.last() == b.last());
        lemma_split_plus_nonempty(b.drop_last());
        let p = split_plus(b.drop_last());
        if b.last() == '+' {
            assert((seq![a] + p).push(Seq::<char>::empty()) =~= seq![a] + p.push(Seq::<char>::empty()));
        } else {
            let q = seq![a] + p;
            assert(q.update(q.len() - 1, q.last().push(b.last())) =~= seq![a] + p.update(
                p.len() - 1,
                p.last().push(b.last()),
            ));
        }
    }
}

proof fn lemma_split_join_plus(words: Seq<Seq<char>>, last: Seq<char>)
    requires
        forall|i: int| 0 <= i < words.len() ==> no_plus(#[trigger] words[i]),
        no_plus(last),
    ensures
        split_plus(join_plus(words, last)) == words.push(last),
    decreases words.len(),
{
    if words.len() == 0 {
        lemma_split_plus_no_plus(last);
        assert(seq![last] =~= words.push(last));
    } else {
        let rest = words.drop_first();
        assert forall|i: int| 0 <= i < rest.len() implies no_plus(#[trigger] rest[i]) by {
            assert(rest[i] == words[i + 1]);
        }
        lemma_split_join_plus(rest, last);
        assert(no_plus(words[0]));
        lemma_split_plus_after(words[0], join_plus(rest, last));
        assert(seq![words[0]] + rest.push(last) =~= words.push(last));
    }
}

proof fn lemma_nonempty_trimmed_clean(parts: Seq<Seq<char>>)
    requires
        forall|i: int| 0 <= i < parts.len() ==> clean_token(#[trigger] parts[i]),
    ensures
        nonempty_trimmed(parts) == parts,
    decreases parts.len(),
{
    if parts.len() > 0 {
        let init = parts.drop_last();
        assert forall|i: int| 0 <= i < init.len() implies clean_token(#[trigger] init[i]) by {
            assert(init[i] == parts[i]);
        }
        lemma_nonempty_trimmed_clean(init);
        assert(clean_token(parts.last()));
        assert(init.push(parts.last()) =~= parts);
    }
}

/// A combo written as clean words joined by `+` and ended by a clean token
/// parses to the modifiers that the words name, in order, and the key that
/// the last token names: every token but the last is a modifier.
pub proof fn joined_combo_parses_to_its_parts(words: Seq<Seq<char>>, last: Seq<char>)
    requires
        forall|i: int| 0 <= i < words.len() ==> clean_token(#[trigger] words[i]),
        clean_token(last),
    ensures
        combo_tokens(join_plus(words, last)) == words.push(last),
        parse_combo(join_plus(words, last)) == (match modifier_keys(words) {
            Err(t) => Err((KeyComboErrorKind::UnsupportedModifier, t)),
            Ok(keys) => match primary_key(last) {
                Ok(k) => Ok((keys, k)),
                Err(kind) => Err((kind, last)),
            },
        }),
{
    lemma_split_join_plus(words, last);
    let parts = words.push(last);
    assert forall|i: int| 0 <= i < parts.len() implies clean_token(#[trigger] parts[i]) by {
        if i < words.len() {
            assert(parts[i] == words[i]);
        } else {
            assert(parts[i] == last);
        }
    }
    lemma_nonempty_trimmed_clean(parts);
    assert(parts.drop_last() =~= words);
}

/// Every documented modifier alias names its modifier, in any ASCII case:
/// `Ctrl`/`Control` the control key, `Shift` the shift key, `Alt`/`Opt`/
/// `Option` the option (alt) key, and `Cmd`/`Command`/`Meta`/`Super` the
/// command (meta) key. A combo of one such word and a key parses to that
/// modifier and the key; any other word before the key is refused.
pub proof fn modifier_aliases_name_their_modifiers(word: Seq<char>, last: Seq<char>)
    requires
        clean_token(word),
        clean_token(last),
        primary_key(last) is Ok,
    ensures
        lower(word) == "ctrl"@ || lower(word) == "control"@ ==> parse_combo(word + seq!['+'] + last)
            == Ok::<(Seq<Key>, Key), (KeyComboErrorKind, Seq<char>)>((seq![Key::Control], primary_key(last)->Ok_0)),
        lower(word) == "shift"@ ==> parse_combo(word + seq!['+'] + last)
            == Ok::<(Seq<Key>, Key), (KeyComboErrorKind, Seq<char>)>((seq![Key::Shift], primary_key(last)->Ok_0)),
        lower(word) == "alt"@ || lower(word) == "opt"@ || lower(word) == "option"@ ==> parse_combo(
            word + seq!['+'] + last,
        ) == Ok::<(Seq<Key>, Key), (KeyComboErrorKind, Seq<char>)>((seq![Key::Alt], primary_key(last)->Ok_0)),
        lower(word) == "cmd"@ || lower(word) == "command"@ || lower(word) == "meta"@ || lower(word) == "super"@
            ==> parse_combo(word + seq!['+'] + last) == Ok::<(Seq<Key>, Key), (KeyComboErrorKind, Seq<char>)>(
            (seq![Key::Meta], primary_key(last)->Ok_0),
        ),
        !(lower(word) == "ctrl"@ || lower(word) == "control"@ || lower(word) == "shift"@ || lower(word) == "alt"@
            || lower(word) == "opt"@ || lower(word) == "option"@ || lower(word) == "cmd"@ || lower(word)
            == "command"@ || lower(word) == "meta"@ || lower(word) == "super"@) ==> parse_combo(
            word + seq!['+'] + last,
        ) == Err::<(Seq<Key>, Key), (KeyComboErrorKind, Seq<char>)>(
            (KeyComboErrorKind::UnsupportedModifier, word),
        ),
{
    reveal_strlit("ctrl");
    reveal_strlit("control");
    reveal_strlit("shift");
    reveal_strlit("alt");
    reveal_strlit("opt");
    reveal_strlit("option");
    reveal_strlit("cmd");
    reveal_strlit("command");
    reveal_strlit("meta");
    reveal_strlit("super");
    let words = seq![word];
    assert(words[0] == word);
    assert(words.drop_first() =~= Seq::<Seq<char>>::empty());
    assert(join_plus(Seq::<Seq<char>>::empty(), last) == last);
    assert(join_plus(words, last) == word + seq!['+'] + last);
    joined_combo_parses_to_its_parts(words, last);
    assert(words.drop_last() =~= Seq::<Seq<char>>::empty());
    assert(words.last() == word);
    assert(modifier_keys(Seq::<Seq<char>>::empty()) == Ok::<Seq<Key>, Seq<char>>(Seq::empty()));
    assert("shift"@ != "ctrl"@ && "shift"@ != "control"@) by {
        assert("shift"@[0] != "ctrl"@[0]);
        assert("shift"@.len() != "control"@.len());
    }
    assert(modifier_key("shift"@) == Some(Key::Shift));
    assert("alt"@ != "ctrl"@ && "alt"@ != "control"@ && "alt"@ != "shift"@) by {
        assert("alt"@.len() != "ctrl"@.len());
    }
    assert("opt"@ != "ctrl"@ && "opt"@ != "control"@ && "opt"@ != "shift"@) by {
        assert("opt"@.len() != "ctrl"@.len());
    }
    assert("option"@ != "ctrl"@ && "option"@ != "control"@ && "option"@ != "shift"@) by {
        assert("option"@[0] != "control"@[0]);
    }
    assert(modifier_key("alt"@) == Some(Key::Alt));
    assert(modifier_key("opt"@) == Some(Key::Alt));
    assert(modifier_key("option"@) == Some(Key::Alt));
    assert(modifier_key("cmd"@) == Some(Key::Meta)) by {
        assert("cmd"@[0] != "ctrl"@[0] || "cmd"@.len() != "ctrl"@.len());
        assert("cmd"@.len() != "control"@.len() && "cmd"@.len() != "shift"@.len() && "cmd"@[0] != "alt"@[0]
            && "cmd"@[0] != "opt"@[0] && "cmd"@.len() != "option"@.len());
    }
    assert(modifier_key("command"@) == Some(Key::Meta)) by {
        assert("command"@[2] != "control"@[2]);
        assert("command"@.len() != "ctrl"@.len() && "command"@.len() != "shift"@.len() && "command"@.len()
            != "alt"@.len() && "command"@.len() != "opt"@.len() && "command"@.len() != "option"@.len());
    }
    assert(modifier_key("meta"@) == Some(Key::Meta)) by {
        assert("meta"@[0] != "ctrl"@[0]);
        assert("meta"@.len() != "control"@.len() && "meta"@.len() != "shift"@.len() && "meta"@.len()
            != "alt"@.len() && "meta"@.len() != "opt"@.len() && "meta"@.len() != "option"@.len());
    }
    assert(modifier_key("super"@) == Some(Key::Meta)) by {
        assert("super"@[1] != "shift"@[1]);
        assert("super"@.len() != "control"@.len() && "super"@.len() != "ctrl"@.len() && "super"@.len()
            != "alt"@.len() && "super"@.len() != "opt"@.len() && "super"@.len() != "option"@.len());
    }
    assert(Seq::<Key>::empty().push(Key::Control) =~= seq![Key::Control]);
    assert(Seq::<Key>::empty().push(Key::Shift) =~= seq![Key::Shift]);
    assert(Seq::<Key>::empty().push(Key::Alt) =~= seq![Key::Alt]);
    assert(Seq::<Key>::empty().push(Key::Meta) =~= seq![Key::Meta]);
}

} // verus!
