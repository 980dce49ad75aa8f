//! The human-readable listing of MIDI input ports.

use vstd::prelude::*;

use crate::text::{decimal, decimal_string, push_char};

verus! {

/// `s` padded with spaces on the right to at least `width` characters.
pub open spec fn pad_right(s: Seq<char>, width: nat) -> Seq<char> {
    if s.len() >= width {
        s
    } else {
        s + Seq::new((width - s.len()) as nat, |i: int| ' ')
    }
}

/// The table row of a port: its index left-aligned in five columns, two spaces, its name.
pub open spec fn port_row(index: usize, name: Seq<char>) -> Seq<char> {
    pad_right(decimal(index as nat), 5) + "  "@ + name
}

/// The lines that list `ports` for a human reader.
pub open spec fn port_listing(ports: Seq<(usize, Seq<char>)>) -> Seq<Seq<char>> {
    if ports.len() == 0 {
        seq!["No MIDI input ports found. Connect a MIDI device and try again."@]
    } else {
        seq!["Index  Name"@, "─────  ────────────────────────────────"@] + ports.map_values(
            |p: (usize, Seq<char>)| port_row(p.0, p.1),
        )
    }
}

/// The lines that list MIDI input ports (index and name) for a human reader.
pub fn human_port_listing(ports: &Vec<(usize, String)>) -> (r: Vec<String>)
    ensures
        r@.map_values(|l: String| l@) == port_listing(
            ports@.map_values(|p: (usize, String)| (p.0, p.1@)),
        ),
{
    let ghost pv = ports@.map_values(|p: (usize, String)| (p.0, p.1@));
    let mut lines: Vec<String> = Vec::new();
    if ports.len() == 0 {
        lines.push(String::from_str("No MIDI input ports found. Connect a MIDI device and try again."));
        assert(lines@.map_values(|l: String| l@) =~= port_listing(pv));
        return lines;
    }
    lines.push(String::from_str("Index  Name"));
    lines.push(String::from_str("─────  ────────────────────────────────"));
    let mut i: usize = 0;
    while i < ports.len()
        invariant
            0 <= i <= ports@.len(),
            pv == ports@.map_values(|p: (usize, String)| (p.0, p.1@)),
            lines@.map_values(|l: String| l@) == seq!["Index  Name"@, "─────  ────────────────────────────────"@]
                + pv.take(i as int).map_values(|p: (usize, Seq<char>)| port_row(p.0, p.1)),
        decreases ports.len() - i,
    {
        let (index, name) = &ports[i];
        let mut row = decimal_string(*index as u64);
        let ghost digits = row@;
        while row.unicode_len() < 5
            invariant
                digits == decimal(*index as nat),
                row@.len() <= 5 || row@ == digits,
                row@ == pad_right(digits, row@.len() as nat),
                row@.len() >= digits.len(),
            decreases 5 - row@.len(),
        {
            push_char(&mut row, ' ');
            assert(row@ =~= pad_right(digits, row@.len() as nat));
        }
        assert(row@ =~= pad_right(digits, 5));
        row.append("  ");
        row.append(name.as_str());
        assert(row@ == port_row(*index, name@));
        assert(pv[i as int] == (*index, name@));
        let ghost before = lines@;
        lines.push(row);
        assert(lines@.map_values(|l: String| l@) =~= before.map_values(|l: String| l@).push(port_row(*index, name@)));
        assert(pv.take(i + 1) =~= pv.take(i as int).push(pv[i as int]));
        i = i + 1;
        assert(lines@.map_values(|l: String| l@) =~= seq!["Index  Name"@, "─────  ────────────────────────────────"@]
            + pv.take(i as int).map_values(|p: (usize, Seq<char>)| port_row(p.0, p.1)));
    }
    assert(pv.take(i as int) =~= pv);
    lines
}

} // verus!
