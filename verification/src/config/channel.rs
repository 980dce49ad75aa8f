//! [`ChannelSet`]: a bitmask of selected MIDI channels (one-based, 1 to 16).

use vstd::prelude::*;

use crate::text::{
    decimal_parses_back, lemma_decimal_plain,
    chars_of, debug_quoted, decimal, decimal_string, find_char, find_char_index,
    parse_u8, parse_u8_range, str_debug, trim, trim_range,
};

verus! {

/// Bitmask over channels 1 to 16. Bit `N - 1` stands for channel `N`.
#[derive(Debug, Clone, Copy)]
pub struct ChannelSet(u16);

/// Whether bit `k` of `m` is set.
pub open spec fn bit_set(m: u16, k: int) -> bool {
    (m >> (k as u16)) & 1u16 == 1u16
}

impl View for ChannelSet {
    type V = Set<int>;

    closed spec fn view(&self) -> Set<int> {
        Set::new(|c: int| 1 <= c <= 16 && bit_set(self.0, c - 1))
    }
}

/// The channels 1 to 16.
pub open spec fn all_channels() -> Set<int> {
    Set::new(|c: int| 1 <= c <= 16)
}

/// The channels from `a` to `b`, both included.
pub open spec fn channel_span(a: int, b: int) -> Set<int> {
    Set::new(|c: int| a <= c <= b)
}

/// Why a channel selector was refused.
#[derive(Debug, Clone, Copy, PartialEq, Eq)]
pub enum ChannelErrorKind {
    /// A channel outside 1 to 16 was named.
    OutOfRange(u8),
    /// An integer selector does not fit in a `u8`.
    TooLarge,
    /// A range selector holds no `-`.
    MissingRangeSeparator,
    /// A bound of a range selector is not an integer from 0 to 255.
    InvalidRangeBound,
    /// A range selector runs downwards.
    DescendingRange,
    /// A single-channel selector is not an integer from 0 to 255.
    InvalidChannel,
}

/// A refused channel selector: why, and the selector's text.
#[derive(Debug)]
pub struct ChannelError {
    pub kind: ChannelErrorKind,
    pub input: String,
}

/// The outcome of adding the channels that one selector names to `acc`:
/// a range `a-b` adds `a..=b`, anything else must be a single channel.
pub open spec fn selector_step(acc: Set<int>, s: Seq<char>) -> Result<Set<int>, ChannelErrorKind> {
    match find_char(s, '-') {
        Some(i) => range_step(acc, s, i),
        None => match parse_u8(trim(s)) {
            Some(c) => single_step(acc, c),
            None => Err(ChannelErrorKind::InvalidChannel),
        },
    }
}

/// Adding channel `c` to `acc`.
pub open spec fn single_step(acc: Set<int>, c: u8) -> Result<Set<int>, ChannelErrorKind> {
    if 1 <= c <= 16 {
        Ok(acc.insert(c as int))
    } else {
        Err(ChannelErrorKind::OutOfRange(c))
    }
}

/// The bounds of the range `s` whose first `-` stands at `i`.
pub open spec fn range_bounds(s: Seq<char>, i: int) -> Option<(u8, u8)> {
    match (parse_u8(trim(s.take(i))), parse_u8(trim(s.skip(i + 1)))) {
        (Some(a), Some(b)) => Some((a, b)),
        _ => None,
    }
}

/// The first channel of `a..=b` outside 1 to 16, if any (`a <= b`).
pub open spec fn first_bad_channel(a: u8, b: u8) -> Option<u8> {
    if a == 0 {
        Some(0u8)
    } else if a > 16 {
        Some(a)
    } else if b > 16 {
        Some(17u8)
    } else {
        None
    }
}

/// Adding the range `s` (first `-` at `i`) to `acc`.
pub open spec fn range_step(acc: Set<int>, s: Seq<char>, i: int) -> Result<Set<int>, ChannelErrorKind> {
    match range_bounds(s, i) {
        None => Err(ChannelErrorKind::InvalidRangeBound),
        Some((a, b)) => if a > b {
            Err(ChannelErrorKind::DescendingRange)
        } else {
            match first_bad_channel(a, b) {
                Some(c) => Err(ChannelErrorKind::OutOfRange(c)),
                None => Ok(acc.union(channel_span(a as int, b as int))),
            }
        },
    }
}

/// Adding the range selector `s` to `acc`: refused when `s` holds no `-`,
/// else split at its first `-`.
pub open spec fn range_text_step(acc: Set<int>, s: Seq<char>) -> Result<Set<int>, ChannelErrorKind> {
    match find_char(s, '-') {
        Some(i) => range_step(acc, s, i),
        None => Err(ChannelErrorKind::MissingRangeSeparator),
    }
}

/// The channels that adding the range selector `s` has already added when it
/// is refused: a range that starts within 1 to 16 and runs past 16 adds its
/// channels up to 16 before channel 17 is refused; every other refusal comes
/// before any channel is added.
pub open spec fn range_text_partial(s: Seq<char>) -> Set<int> {
    match find_char(s, '-') {
        Some(i) => match range_bounds(s, i) {
            Some((a, b)) => if 1 <= a <= 16 && a <= b && b > 16 {
                channel_span(a as int, 16)
            } else {
                Set::empty()
            },
            None => Set::empty(),
        },
        None => Set::empty(),
    }
}

/// `"*"`.
pub open spec fn wildcard() -> Seq<char> {
    seq!['*']
}

/// The channels a selector string names: `*` (all), `N`, or `A-B`.
pub open spec fn selector_channels(s: Seq<char>) -> Result<Set<int>, ChannelErrorKind> {
    if trim(s) == wildcard() {
        Ok(all_channels())
    } else {
        selector_step(Set::empty(), s)
    }
}

/// Folding the selectors `items` into `acc`, in order; a `*` selects every
/// channel at once, and the first refused selector stops the fold.
pub open spec fn list_from(acc: Set<int>, items: Seq<Seq<char>>) -> Result<Set<int>, (ChannelErrorKind, Seq<char>)>
    decreases items.len(),
{
    if items.len() == 0 {
        Ok(acc)
    } else if trim(items[0]) == wildcard() {
        Ok(all_channels())
    } else {
        match selector_step(acc, items[0]) {
            Ok(next) => list_from(next, items.drop_first()),
            Err(k) => Err((k, items[0])),
        }
    }
}

/// The channels a list of selectors names; the empty list names all of them.
pub open spec fn list_channels(items: Seq<Seq<char>>) -> Result<Set<int>, (ChannelErrorKind, Seq<char>)> {
    if items.len() == 0 {
        Ok(all_channels())
    } else {
        list_from(Set::empty(), items)
    }
}

proof fn lemma_bit_test(m: u16, k: u16)
    requires
        k < 16,
    ensures
        (m & (1u16 << k) != 0u16) == ((m >> k) & 1u16 == 1u16),
{
    assert((m & (1u16 << k) != 0u16) == ((m >> k) & 1u16 == 1u16)) by (bit_vector)
        requires
            k < 16,
    ;
}

proof fn lemma_bit_insert(m: u16, k: u16, j: u16)
    requires
        k < 16,
        j < 16,
    ensures
        (((m | (1u16 << k)) >> j) & 1u16 == 1u16) == (((m >> j) & 1u16 == 1u16) || j == k),
{
    assert((((m | (1u16 << k)) >> j) & 1u16 == 1u16) == (((m >> j) & 1u16 == 1u16) || j == k))
        by (bit_vector)
        requires
            k < 16,
            j < 16,
    ;
}

proof fn lemma_full_and_empty(j: u16)
    requires
        j < 16,
    ensures
        (0xFFFFu16 >> j) & 1u16 == 1u16,
        (0u16 >> j) & 1u16 != 1u16,
{
    assert((0xFFFFu16 >> j) & 1u16 == 1u16 && (0u16 >> j) & 1u16 != 1u16) by (bit_vector)
        requires
            j < 16,
    ;
}

/// The human-readable description of a refused selector.
pub open spec fn channel_error_message(kind: ChannelErrorKind, input: Seq<char>) -> Seq<char> {
    match kind {
        ChannelErrorKind::OutOfRange(c) => "channel "@ + decimal(c as nat) + " is out of range (1-16)"@,
        ChannelErrorKind::TooLarge => "channel must fit in u8"@,
        ChannelErrorKind::MissingRangeSeparator => "invalid channel range "@ + str_debug(input),
        ChannelErrorKind::InvalidRangeBound => "invalid channel in range "@ + str_debug(input),
        ChannelErrorKind::DescendingRange => "invalid descending channel range "@ + str_debug(input),
        ChannelErrorKind::InvalidChannel => "invalid channel "@ + str_debug(input),
    }
}

impl ChannelError {
    /// The human-readable description of the error.
    pub fn message(&self) -> (m: String)
        ensures
            m@ == channel_error_message(self.kind, self.input@),
    {
        match self.kind {
            ChannelErrorKind::OutOfRange(c) => {
                String::from_str("channel ").concat(decimal_string(c as u64).as_str()).concat(
                    " is out of range (1-16)",
                )
            },
            ChannelErrorKind::TooLarge => String::from_str("channel must fit in u8"),
            ChannelErrorKind::MissingRangeSeparator => {
                String::from_str("invalid channel range ").concat(debug_quoted(self.input.as_str()).as_str())
            },
            ChannelErrorKind::InvalidRangeBound => {
                String::from_str("invalid channel in range ").concat(debug_quoted(self.input.as_str()).as_str())
            },
            ChannelErrorKind::DescendingRange => {
                String::from_str("invalid descending channel range ").concat(debug_quoted(self.input.as_str()).as_str())
            },
            ChannelErrorKind::InvalidChannel => {
                String::from_str("invalid channel ").concat(debug_quoted(self.input.as_str()).as_str())
            },
        }
    }
}

impl ChannelSet {
    /// A set that contains all MIDI channels 1 through 16.
    pub fn all() -> (r: Self)
        ensures
            r@ == all_channels(),
    {
        let r = ChannelSet(0xFFFF);
        assert forall|c: int| 1 <= c <= 16 implies #[trigger] r@.contains(c) by {
            lemma_full_and_empty((c - 1) as u16);
        }
        assert(r@ =~= all_channels());
        r
    }

    /// The set with no channel.
    fn none() -> (r: Self)
        ensures
            r@ == Set::<int>::empty(),
    {
        let r = ChannelSet(0);
        assert forall|c: int| !(#[trigger] r@.contains(c)) by {
            if 1 <= c <= 16 {
                lemma_full_and_empty((c - 1) as u16);
            }
        }
        assert(r@ =~= Set::<int>::empty());
        r
    }

    /// Whether this set contains `channel` (never, outside 1 to 16).
    pub fn contains(&self, channel: u8) -> (r: bool)
        ensures
            r == self@.contains(channel as int),
    {
        if !(1 <= channel && channel <= 16) {
            return false;
        }
        let k: u16 = (channel - 1) as u16;
        proof {
            lemma_bit_test(self.0, k);
        }
        self.0 & (1u16 << k) != 0
    }

    /// Adds `channel`, which must lie in 1 to 16.
    fn insert_channel(&mut self, channel: u8) -> (r: Result<(), ChannelErrorKind>)
        ensures
            r == (match single_step(old(self)@, channel) {
                Ok(_) => Ok::<(), ChannelErrorKind>(()),
                Err(k) => Err(k),
            }),
            r is Ok ==> final(self)@ == old(self)@.insert(channel as int),
            r is Err ==> final(self)@ == old(self)@,
    {
        if !(1 <= channel && channel <= 16) {
            return Err(ChannelErrorKind::OutOfRange(channel));
        }
        let ghost before = self@;
        let k: u16 = (channel - 1) as u16;
        self.0 = self.0 | (1u16 << k);
        proof {
            assert forall|c: int| #[trigger] self@.contains(c) == before.insert(channel as int).contains(c) by {
                if 1 <= c <= 16 {
                    lemma_bit_insert(old(self).0, k, (c - 1) as u16);
                }
            }
            assert(self@ =~= before.insert(channel as int));
        }
        Ok(())
    }

    /// Adds the channels of the range selector `s` (`A-B`, split at its first `-`).
    fn insert_range(&mut self, s: &Vec<char>) -> (r: Result<(), ChannelErrorKind>)
        ensures
            r == (match range_text_step(old(self)@, s@) {
                Ok(_) => Ok::<(), ChannelErrorKind>(()),
                Err(k) => Err(k),
            }),
            r is Ok ==> final(self)@ == range_text_step(old(self)@, s@)->Ok_0,
            r is Err ==> final(self)@ == old(self)@.union(range_text_partial(s@)),
    {
        let found = find_char_index(s, '-');
        if found.is_none() {
            proof {
                assert(old(self)@.union(Set::<int>::empty()) =~= old(self)@);
            }
            return Err(ChannelErrorKind::MissingRangeSeparator);
        }
        let dash: usize = found.unwrap();
        let n: usize = s.len();
        assert(dash < n && find_char(s@, '-') == Some(dash as int));
        let ghost t = s@;
        proof {
            assert(s@.subrange(0, dash as int) =~= t.take(dash as int));
            assert(s@.subrange(dash + 1, s@.len() as int) =~= t.skip(dash + 1));
        }
        let (a, b) = match (trimmed_u8(s, 0, dash), trimmed_u8(s, dash + 1, n)) {
            (Some(a), Some(b)) => (a, b),
            _ => {
                proof {
                    assert(old(self)@.union(Set::<int>::empty()) =~= old(self)@);
                }
                return Err(ChannelErrorKind::InvalidRangeBound);
            },
        };
        if a > b {
            proof {
                assert(old(self)@.union(Set::<int>::empty()) =~= old(self)@);
            }
            return Err(ChannelErrorKind::DescendingRange);
        }
        let ghost before = self@;
        let mut c: u8 = a;
        proof {
            assert(before.union(channel_span(a as int, c - 1)) =~= before);
        }
        loop
            invariant
                a <= c <= b,
                c > a ==> 1 <= a && c - 1 <= 16,
                self@ == before.union(channel_span(a as int, c - 1)),
                range_bounds(t, dash as int) == Some((a, b)),
                find_char(t, '-') == Some(dash as int),
                before == old(self)@,
                t == s@,
            decreases b - c,
        {
            match self.insert_channel(c) {
                Ok(()) => {},
                Err(k) => {
                    proof {
                        if c == a {
                            assert(channel_span(a as int, c - 1) =~= Set::<int>::empty());
                            assert(range_text_partial(t) =~= Set::<int>::empty());
                        } else {
                            assert(c == 17);
                            assert(range_text_partial(t) =~= channel_span(a as int, 16));
                        }
                    }
                    return Err(k);
                },
            }
            proof {
                assert(self@ =~= before.union(channel_span(a as int, c as int)));
            }
            if c == b {
                return Ok(());
            }
            c = c + 1;
        }
    }
}

impl ChannelSet {
    /// Adds the channels that the selector `s` names (a range or one channel).
    fn add_selector(&mut self, s: &Vec<char>) -> (r: Result<(), ChannelErrorKind>)
        ensures
            r == (match selector_step(old(self)@, s@) {
                Ok(_) => Ok::<(), ChannelErrorKind>(()),
                Err(k) => Err(k),
            }),
            r is Ok ==> final(self)@ == selector_step(old(self)@, s@)->Ok_0,
    {
        match find_char_index(s, '-') {
            Some(_) => self.insert_range(s),
            None => match trimmed_u8(s, 0, s.len()) {
                Some(c) => {
                    assert(s@.subrange(0, s@.len() as int) =~= s@);
                    self.insert_channel(c)
                },
                None => {
                    assert(s@.subrange(0, s@.len() as int) =~= s@);
                    Err(ChannelErrorKind::InvalidChannel)
                },
            },
        }
    }

    /// The channel set an integer selector names: one channel from 1 to 16.
    pub fn from_u64(v: u64) -> (r: Result<Self, ChannelError>)
        ensures
            match r {
                Ok(set) => 1 <= v <= 16 && set@ == Set::<int>::empty().insert(v as int),
                Err(e) => (v > 255 && e.kind == ChannelErrorKind::TooLarge && e.input@ == decimal(
                    v as nat,
                )) || (v <= 255 && !(1 <= v <= 16) && e.kind == ChannelErrorKind::OutOfRange(
                    v as u8,
                ) && e.input@ == decimal(v as nat)),
            },
    {
        if v > 255 {
            return Err(ChannelError { kind: ChannelErrorKind::TooLarge, input: decimal_string(v) });
        }
        let mut set = ChannelSet::none();
        match set.insert_channel(v as u8) {
            Ok(()) => Ok(set),
            Err(kind) => Err(ChannelError { kind, input: decimal_string(v) }),
        }
    }

    /// The channel set a selector string names: `*`, `N` or `A-B`.
    pub fn from_selector(v: &str) -> (r: Result<Self, ChannelError>)
        ensures
            match r {
                Ok(set) => selector_channels(v@) == Ok::<Set<int>, ChannelErrorKind>(set@),
                Err(e) => selector_channels(v@) == Err::<Set<int>, ChannelErrorKind>(e.kind)
                    && e.input@ == v@,
            },
    {
        let chars = chars_of(v);
        if is_wildcard(&chars) {
            return Ok(ChannelSet::all());
        }
        let mut set = ChannelSet::none();
        match set.add_selector(&chars) {
            Ok(()) => Ok(set),
            Err(kind) => Err(ChannelError { kind, input: String::from_str(v) }),
        }
    }

    /// The channel set a list of selectors names; the empty list names all channels.
    pub fn from_list(items: &Vec<String>) -> (r: Result<Self, ChannelError>)
        ensures
            match r {
                Ok(set) => list_channels(items@.map_values(|s: String| s@)) == Ok::<
                    Set<int>,
                    (ChannelErrorKind, Seq<char>),
                >(set@),
                Err(e) => list_channels(items@.map_values(|s: String| s@)) == Err::<
                    Set<int>,
                    (ChannelErrorKind, Seq<char>),
                >((e.kind, e.input@)),
            },
    {
        let ghost iv = items@.map_values(|s: String| s@);
        if items.len() == 0 {
            return Ok(ChannelSet::all());
        }
        let mut set = ChannelSet::none();
        let mut i: usize = 0;
        assert(iv.skip(0) =~= iv);
        while i < items.len()
            invariant
                0 <= i <= items@.len(),
                iv == items@.map_values(|s: String| s@),
                items@.len() > 0,
                list_channels(iv) == list_from(set@, iv.skip(i as int)),
            decreases items.len() - i,
        {
            let item = &items[i];
            let chars = chars_of(item.as_str());
            assert(iv.skip(i as int)[0] == chars@);
            assert(iv.skip(i as int).drop_first() =~= iv.skip(i + 1));
            if is_wildcard(&chars) {
                return Ok(ChannelSet::all());
            }
            match set.add_selector(&chars) {
                Ok(()) => {},
                Err(kind) => {
                    return Err(ChannelError { kind, input: item.clone() });
                },
            }
            i = i + 1;
        }
        assert(iv.skip(i as int) =~= Seq::<Seq<char>>::empty());
        Ok(set)
    }
}

/// Whether the trimmed text of `s` is `*`.
fn is_wildcard(s: &Vec<char>) -> (r: bool)
    ensures
        r == (trim(s@) == wildcard()),
{
    let t = trim_range(s, 0, s.len());
    assert(s@.subrange(0, s@.len() as int) =~= s@);
    let r = t.len() == 1 && t[0] == '*';
    assert(r ==> t@ =~= wildcard());
    r
}

/// `str::parse::<u8>` on the trimmed text of `s[from..to]`.
fn trimmed_u8(s: &Vec<char>, from: usize, to: usize) -> (r: Option<u8>)
    requires
        from <= to <= s@.len(),
    ensures
        r == parse_u8(trim(s@.subrange(from as int, to as int))),
{
    let t = trim_range(s, from, to);
    let r = parse_u8_range(&t, 0, t.len());
    assert(t@.subrange(0, t@.len() as int) =~= t@);
    r
}


/// A channel set holds MIDI channels 1 to 16 only.
pub proof fn channel_set_holds_only_midi_channels(set: ChannelSet)
    ensures
        forall|c: int| #[trigger] set@.contains(c) ==> 1 <= c <= 16,
{
}

/// The selector `*` (whatever whitespace surrounds it) selects every
/// channel, alone or anywhere in a list whose earlier selectors are
/// accepted; and the empty list selects every channel.
pub proof fn wildcard_selects_all_channels(s: Seq<char>, before: Seq<Seq<char>>, after: Seq<Seq<char>>)
    requires
        trim(s) == wildcard(),
        list_channels(before) is Ok,
    ensures
        selector_channels(s) == Ok::<Set<int>, ChannelErrorKind>(all_channels()),
        list_channels(Seq::empty()) == Ok::<Set<int>, (ChannelErrorKind, Seq<char>)>(all_channels()),
        list_channels(before + seq![s] + after) == Ok::<Set<int>, (ChannelErrorKind, Seq<char>)>(all_channels()),
{
    if before.len() == 0 {
        assert((before + seq![s] + after)[0] == s);
    } else {
        lemma_list_from_prefix(Set::empty(), before, s, after);
    }
}

proof fn lemma_list_from_prefix(acc: Set<int>, before: Seq<Seq<char>>, s: Seq<char>, after: Seq<Seq<char>>)
    requires
        trim(s) == wildcard(),
        list_from(acc, before) is Ok,
    ensures
        list_from(acc, before + seq![s] + after) == Ok::<Set<int>, (ChannelErrorKind, Seq<char>)>(all_channels()),
    decreases before.len(),
{
    let whole = before + seq![s] + after;
    if before.len() == 0 {
        assert(whole[0] == s);
    } else {
        assert(whole[0] == before[0]);
        assert(whole.drop_first() =~= before.drop_first() + seq![s] + after);
        if trim(before[0]) == wildcard() {
        } else {
            let next = selector_step(acc, before[0])->Ok_0;
            lemma_list_from_prefix(next, before.drop_first(), s, after);
        }
    }
}

/// The union of the channels that each selector of `items` names on its own.
pub open spec fn union_of_selectors(items: Seq<Seq<char>>) -> Set<int>
    decreases items.len(),
{
    if items.len() == 0 {
        Set::empty()
    } else {
        union_of_selectors(items.drop_last()).union(selector_channels(items.last())->Ok_0)
    }
}

/// Adding a selector's channels to `acc` unites them with `acc`.
proof fn lemma_selector_step_union(acc: Set<int>, s: Seq<char>)
    ensures
        selector_step(acc, s) == (match selector_step(Set::empty(), s) {
            Ok(x) => Ok::<Set<int>, ChannelErrorKind>(acc.union(x)),
            Err(k) => Err(k),
        }),
{
    match find_char(s, '-') {
        Some(i) => {
            match range_bounds(s, i) {
                Some((a, b)) => {
                    assert(acc.union(channel_span(a as int, b as int)) =~= acc.union(
                        Set::<int>::empty().union(channel_span(a as int, b as int)),
                    ));
                },
                None => {},
            }
        },
        None => match parse_u8(trim(s)) {
            Some(c) => {
                assert(acc.insert(c as int) =~= acc.union(Set::<int>::empty().insert(c as int)));
            },
            None => {},
        },
    }
}

/// A list of selectors, none of them `*` and each accepted on its own,
/// selects the union of what each selects.
pub proof fn list_selects_union_of_selectors(items: Seq<Seq<char>>)
    requires
        items.len() > 0,
        forall|i: int| 0 <= i < items.len() ==> trim(#[trigger] items[i]) != wildcard(),
        forall|i: int| 0 <= i < items.len() ==> selector_channels(#[trigger] items[i]) is Ok,
    ensures
        list_channels(items) == Ok::<Set<int>, (ChannelErrorKind, Seq<char>)>(union_of_selectors(items)),
{
    lemma_list_from_union(Set::empty(), items);
    assert(Set::<int>::empty().union(union_of_selectors(items)) =~= union_of_selectors(items));
}

proof fn lemma_list_from_union(acc: Set<int>, items: Seq<Seq<char>>)
    requires
        forall|i: int| 0 <= i < items.len() ==> trim(#[trigger] items[i]) != wildcard(),
        forall|i: int| 0 <= i < items.len() ==> selector_channels(#[trigger] items[i]) is Ok,
    ensures
        list_from(acc, items) == Ok::<Set<int>, (ChannelErrorKind, Seq<char>)>(acc.union(union_of_selectors(items))),
    decreases items.len(),
{
    if items.len() == 0 {
        assert(acc.union(Set::empty()) =~= acc);
    } else {
        let first = items[0];
        assert(trim(first) != wildcard());
        assert(selector_channels(first) is Ok);
        lemma_selector_step_union(acc, first);
        let x = selector_step(Set::empty(), first)->Ok_0;
        let rest = items.drop_first();
        assert forall|i: int| 0 <= i < rest.len() implies trim(#[trigger] rest[i]) != wildcard() by {
            assert(rest[i] == items[i + 1]);
        }
        assert forall|i: int| 0 <= i < rest.len() implies selector_channels(#[trigger] rest[i]) is Ok by {
            assert(rest[i] == items[i + 1]);
        }
        lemma_list_from_union(acc.union(x), rest);
        lemma_union_of_selectors_front(items);
        assert(acc.union(x).union(union_of_selectors(rest)) =~= acc.union(union_of_selectors(items)));
    }
}

proof fn lemma_union_of_selectors_front(items: Seq<Seq<char>>)
    requires
        items.len() > 0,
        trim(items[0]) != wildcard(),
    ensures
        union_of_selectors(items) == selector_step(Set::empty(), items[0])->Ok_0.union(
            union_of_selectors(items.drop_first()),
        ),
    decreases items.len(),
{
    let x = selector_step(Set::empty(), items[0])->Ok_0;
    if items.len() == 1 {
        assert(items.drop_first() =~= Seq::<Seq<char>>::empty());
        assert(items.drop_last() =~= Seq::<Seq<char>>::empty());
        assert(Set::<int>::empty().union(x) =~= x.union(Set::<int>::empty()));
    } else {
        lemma_union_of_selectors_front(items.drop_last());
        assert(items.drop_last()[0] == items[0]);
        assert(items.drop_last().drop_first() =~= items.drop_first().drop_last());
        assert(items.drop_first().last() == items.last());
        let y = selector_channels(items.last())->Ok_0;
        let u = union_of_selectors(items.drop_first().drop_last());
        assert(x.union(u).union(y) =~= x.union(u.union(y)));
    }
}

/// The selector `N`, for a channel `N` from 1 to 16, selects that channel alone.
pub proof fn number_selects_its_channel(c: u8)
    requires
        1 <= c <= 16,
    ensures
        selector_channels(decimal(c as nat)) == Ok::<Set<int>, ChannelErrorKind>(
            Set::<int>::empty().insert(c as int),
        ),
{
    decimal_parses_back(c);
    lemma_decimal_plain(c as nat);
    assert(trim(decimal(c as nat)) != wildcard());
}

/// The selector `A-B`, for channels `A <= B` from 1 to 16, selects the
/// channels from `A` to `B`.
pub proof fn range_selects_its_span(a: u8, b: u8)
    requires
        1 <= a <= b <= 16,
    ensures
        selector_channels(decimal(a as nat) + seq!['-'] + decimal(b as nat)) == Ok::<Set<int>, ChannelErrorKind>(
            channel_span(a as int, b as int),
        ),
{
    let da = decimal(a as nat);
    let db = decimal(b as nat);
    let s = da + seq!['-'] + db;
    decimal_parses_back(a);
    decimal_parses_back(b);
    lemma_decimal_plain(a as nat);
    lemma_decimal_plain(b as nat);
    crate::text::lemma_find_char_in_concat(da, db, '-');
    assert(s.take(da.len() as int) =~= da);
    assert(s.skip(da.len() as int + 1) =~= db);
    assert(trim(s) != wildcard()) by {
        crate::text::lemma_trim_of_digit_edges(s);
    }
    assert(Set::<int>::empty().union(channel_span(a as int, b as int)) =~= channel_span(a as int, b as int));
}

} // verus!
