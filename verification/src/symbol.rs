//! The symbol table: one entry per address, built from the named addresses
//! of a symbol file and resolved so that every address at or after a named
//! one knows its nearest name.

use crate::numeral::{
    i32_from_str_radix,
    parsed_i32,
    to_upper_hex,
    unsigned_value,
    upper_hex,
    usize_from_str_radix,
};
use crate::text::{chars_of, first_word, first_word_end, last_word, last_word_start, text_eq};
use vstd::prelude::*;

verus! {

/// The number of addresses of the machine, and of entries in its table.
pub const ADDRESS_SPACE: usize = 65536;

/// What the table knows of one address.
#[derive(Clone, Debug, PartialEq, Eq)]
pub enum TableEntry {
    /// The address has this name.
    Symbol(String),
    /// The nearest named address lies this many addresses below.
    Relative(usize),
    /// No address at or below this one is named.
    Unknown,
}

/// A table entry as a value: the name as its characters.
pub enum EntryView {
    Symbol(Seq<char>),
    Relative(nat),
    Unknown,
}

impl View for TableEntry {
    type V = EntryView;

    open spec fn view(&self) -> EntryView {
        match self {
            TableEntry::Symbol(name) => EntryView::Symbol(name@),
            TableEntry::Relative(offset) => EntryView::Relative(*offset as nat),
            TableEntry::Unknown => EntryView::Unknown,
        }
    }
}

/// A table as the sequence of its entries' values, by address.
pub open spec fn table_view(table: Seq<TableEntry>) -> Seq<EntryView> {
    Seq::new(table.len(), |i: int| table[i]@)
}

impl TableEntry {
    /// The name of a named entry.
    pub fn unwrap_symbol_name(&self) -> (name: &str)
        requires
            self is Symbol,
        ensures
            self@ == EntryView::Symbol(name@),
    {
        match self {
            TableEntry::Symbol(name) => name.as_str(),
            _ => vstd::pervasive::unreached(),
        }
    }
}

/// A table of `ADDRESS_SPACE` entries that names no address yet.
pub fn symbol_table_new() -> (table: Vec<TableEntry>)
    ensures
        table@.len() == ADDRESS_SPACE,
        forall|addr: int| 0 <= addr < ADDRESS_SPACE ==> table@[addr] is Unknown,
{
    let mut table: Vec<TableEntry> = Vec::new();
    let mut addr: usize = 0;
    while addr < ADDRESS_SPACE
        invariant
            addr <= ADDRESS_SPACE,
            table@.len() == addr,
            forall|j: int| 0 <= j < addr ==> table@[j] is Unknown,
        decreases ADDRESS_SPACE - addr,
    {
        table.push(TableEntry::Unknown);
        addr += 1;
    }
    table
}

/// The pattern of a row of a symbol file: a line of two slashes, a name
/// and an address in upper-case hexadecimal, each after white space, and
/// nothing but white space after the address. White space here is any but
/// the line feed, so a row never runs over two lines.
pub const SYMTABLE_ROW: &'static str = r"(?m)^//[^\S\n]+(\w+)[^\S\n]+([0-9A-F]+)[^\S\n]*$";

/// What the `regex` crate finds of `pattern` in `haystack`: for each match,
/// from the left and without overlap, the text of each capture group, the
/// whole match first, and `None` for a group that took no part. `None`
/// where the crate does not accept the pattern.
pub uninterp spec fn regex_captures(pattern: Seq<char>, haystack: Seq<char>) -> Option<Seq<Seq<Option<Seq<char>>>>>;

/// Matches with their groups as values: each text as its characters.
pub open spec fn captures_view(found: Seq<Vec<Option<String>>>) -> Seq<Seq<Option<Seq<char>>>> {
    Seq::new(
        found.len(),
        |i: int|
            Seq::new(
                found[i]@.len(),
                |j: int|
                    match found[i]@[j] {
                        Some(text) => Some(text@),
                        None => None,
                    },
            ),
    )
}

/// `regex::Regex::new` and `regex::Regex::captures_iter`. Trusted: the
/// matches that the crate finds depend on the pattern and the haystack
/// alone, and they are handed over group by group as the crate's
/// `Captures::iter` yields them. Nothing is claimed of which text matches.
#[verifier::external_body]
fn captures_iter(pattern: &str, haystack: &str) -> (found: Option<Vec<Vec<Option<String>>>>)
    ensures
        match found {
            Some(rows) => regex_captures(pattern@, haystack@) == Some(captures_view(rows@)),
            None => regex_captures(pattern@, haystack@) is None,
        },
{
    let compiled = regex::Regex::new(pattern).ok()?;
    Some(
        compiled.captures_iter(haystack).map(
            |row| row.iter().map(|group| group.map(|m| m.as_str().to_owned())).collect(),
        ).collect(),
    )
}

/// The definition that a match of the row pattern holds: the name of its
/// first group at the address that its second group writes in hexadecimal.
/// None where the match has other groups than these two or the second is
/// no number.
pub open spec fn row_definition(row: Seq<Option<Seq<char>>>) -> Option<(Seq<char>, nat)> {
    if row.len() == 3 && row[1] is Some && row[2] is Some {
        match unsigned_value(row[2]->0, 16) {
            Some(addr) => Some((row[1]->0, addr)),
            None => None,
        }
    } else {
        None
    }
}

/// The table with `addr` named `name`. An address outside the table names
/// nothing.
pub open spec fn with_definition(table: Seq<EntryView>, name: Seq<char>, addr: nat) -> Seq<
    EntryView,
> {
    if addr < table.len() {
        table.update(addr as int, EntryView::Symbol(name))
    } else {
        table
    }
}

/// The table after the definitions of `rows` have been entered in order,
/// so that of two names for one address the later stays.
pub open spec fn with_rows(table: Seq<EntryView>, rows: Seq<Seq<Option<Seq<char>>>>) -> Seq<
    EntryView,
>
    decreases rows.len(),
{
    if rows.len() == 0 {
        table
    } else {
        let earlier = with_rows(table, rows.drop_last());
        match row_definition(rows.last()) {
            Some((name, addr)) => with_definition(earlier, name, addr),
            None => earlier,
        }
    }
}

/// Names `addr` in the table, replacing what the entry held. Tells whether
/// the address lies in the table; outside it nothing changes.
pub fn define_symbol(syms: &mut [TableEntry], name: String, addr: usize) -> (defined: bool)
    ensures
        defined == (addr < old(syms)@.len()),
        final(syms)@.len() == old(syms)@.len(),
        table_view(final(syms)@) == with_definition(table_view(old(syms)@), name@, addr as nat),
{
    if addr < syms.len() {
        syms[addr] = TableEntry::Symbol(name);
        true
    } else {
        false
    }
}

/// Enters the definitions of the matched rows into the table, in order.
/// A match that holds no definition, or one for an address outside the
/// table, changes nothing.
pub fn define_symbols(rows: &Vec<Vec<Option<String>>>, syms: &mut [TableEntry])
    ensures
        final(syms)@.len() == old(syms)@.len(),
        table_view(final(syms)@) == with_rows(table_view(old(syms)@), captures_view(rows@)),
{
    let ghost before = table_view(syms@);
    let ghost all = captures_view(rows@);
    assert(syms@.len() == syms.len());
    let mut i: usize = 0;
    while i < rows.len()
        invariant
            i <= rows@.len(),
            all == captures_view(rows@),
            before.len() == syms@.len() <= usize::MAX,
            table_view(syms@) == with_rows(before, all.take(i as int)),
        decreases rows@.len() - i,
    {
        let row: &Vec<Option<String>> = &rows[i];
        assert(all.take(i + 1).drop_last() =~= all.take(i as int));
        if row.len() == 3 {
            match (&row[1], &row[2]) {
                (Some(name), Some(digits)) => {
                    match usize_from_str_radix(digits.as_str(), 16) {
                        Ok(addr) => {
                            define_symbol(syms, name.clone(), addr);
                        },
                        // A number too large for `usize` lies outside any table.
                        Err(_) => {},
                    }
                },
                _ => {},
            }
        }
        i += 1;
    }
    assert(all.take(rows@.len() as int) =~= all);
}

/// Reads the rows of a symbol file into the table.
///
/// The rows are what `SYMTABLE_ROW` matches in `data`; each names an
/// address, later rows over earlier ones. Text that the pattern does not
/// match is passed over, and so is a row whose address lies outside the
/// table. Were the pattern itself refused, the table would stay as it is.
pub fn parse_symbol_table(data: &str, syms: &mut [TableEntry])
    ensures
        final(syms)@.len() == old(syms)@.len(),
        table_view(final(syms)@) == match regex_captures(SYMTABLE_ROW@, data@) {
            Some(rows) => with_rows(table_view(old(syms)@), rows),
            None => table_view(old(syms)@),
        },
{
    match captures_iter(SYMTABLE_ROW, data) {
        Some(rows) => define_symbols(&rows, syms),
        None => {},
    }
}

/// The nearest named address at or below `addr`, if there is one.
pub open spec fn anchor_of(table: Seq<EntryView>, addr: int) -> Option<int>
    decreases addr + 1,
{
    if addr < 0 {
        None
    } else if table[addr] is Symbol {
        Some(addr)
    } else {
        anchor_of(table, addr - 1)
    }
}

/// The resolved entry of `addr`: a name stays; any other entry becomes the
/// distance to the nearest name at or below it, or unknown below the first
/// name.
pub open spec fn resolved_entry(table: Seq<EntryView>, addr: int) -> EntryView {
    match table[addr] {
        EntryView::Symbol(name) => EntryView::Symbol(name),
        _ => match anchor_of(table, addr) {
            Some(anchor) => EntryView::Relative((addr - anchor) as nat),
            None => EntryView::Unknown,
        },
    }
}

/// The table with every entry resolved.
pub open spec fn resolved(table: Seq<EntryView>) -> Seq<EntryView> {
    Seq::new(table.len(), |addr: int| resolved_entry(table, addr))
}

/// Whether no address from `from` up to and including `to` is named.
pub open spec fn unnamed_between(table: Seq<EntryView>, from: int, to: int) -> bool {
    forall|j: int| from <= j <= to ==> !(#[trigger] table[j] is Symbol)
}

/// Whether the entry of `addr` is what a resolved table holds there: a
/// relative entry points at the nearest name at or below it, and an unknown
/// entry has no name at or below it.
pub open spec fn entry_resolved(table: Seq<EntryView>, addr: int) -> bool {
    match table[addr] {
        EntryView::Symbol(_) => true,
        EntryView::Relative(offset) => {
            &&& 1 <= offset <= addr
            &&& table[addr - offset] is Symbol
            &&& unnamed_between(table, addr - offset + 1, addr)
        },
        EntryView::Unknown => unnamed_between(table, 0, addr),
    }
}

/// Whether the whole table is resolved.
pub open spec fn well_resolved(table: Seq<EntryView>) -> bool {
    forall|addr: int| 0 <= addr < table.len() ==> #[trigger] entry_resolved(table, addr)
}

/// Whether `addr` can be looked up: it lies in the table, and if its entry
/// is relative, the entry points at a name.
pub open spec fn anchored(table: Seq<EntryView>, addr: int) -> bool {
    &&& 0 <= addr < table.len()
    &&& (table[addr] matches EntryView::Relative(offset) ==> offset <= addr && table[addr
        - offset] is Symbol)
}

/// What `anchor_of` finds is a name at or below the address with no name
/// in between, and it finds nothing only where there is no name.
pub proof fn lemma_anchor_of(table: Seq<EntryView>, addr: int)
    requires
        -1 <= addr < table.len(),
    ensures
        match anchor_of(table, addr) {
            Some(anchor) => {
                &&& 0 <= anchor <= addr
                &&& table[anchor] is Symbol
                &&& unnamed_between(table, anchor + 1, addr)
            },
            None => unnamed_between(table, 0, addr),
        },
    decreases addr + 1,
{
    if addr >= 0 && !(table[addr] is Symbol) {
        lemma_anchor_of(table, addr - 1);
    }
}

/// Resolving neither names an address nor takes a name away, so the
/// nearest name of an address is the same before and after.
pub proof fn lemma_resolved_keeps_anchors(table: Seq<EntryView>, addr: int)
    requires
        -1 <= addr < table.len(),
    ensures
        anchor_of(resolved(table), addr) == anchor_of(table, addr),
    decreases addr + 1,
{
    if addr >= 0 {
        lemma_resolved_keeps_anchors(table, addr - 1);
    }
}

/// A resolved table is well resolved: each relative entry points at the
/// nearest name at or below it, and unknown entries stand only below the
/// first name.
pub proof fn lemma_resolved_is_well_resolved(table: Seq<EntryView>)
    ensures
        well_resolved(resolved(table)),
        forall|addr: int| 0 <= addr < table.len() ==> anchored(resolved(table), addr),
{
    let after = resolved(table);
    assert forall|addr: int| 0 <= addr < after.len() implies #[trigger] entry_resolved(
        after,
        addr,
    ) by {
        lemma_anchor_of(table, addr);
        assert forall|j: int| 0 <= j <= addr implies (#[trigger] after[j] is Symbol) == (
        table[j] is Symbol) by {}
    }
    assert forall|addr: int| 0 <= addr < table.len() implies anchored(after, addr) by {
        assert(entry_resolved(after, addr));
    }
}

/// Resolving twice is resolving once.
pub proof fn lemma_resolved_idempotent(table: Seq<EntryView>)
    ensures
        resolved(resolved(table)) == resolved(table),
{
    let once = resolved(table);
    assert forall|addr: int| 0 <= addr < table.len() implies resolved_entry(once, addr)
        == resolved_entry(table, addr) by {
        lemma_resolved_keeps_anchors(table, addr);
    }
}

/// Resolves the table in one pass from the lowest address up.
///
/// Names stay. Every other entry at or after the first name becomes
/// relative to the nearest name at or below it; entries below the first
/// name become unknown. What an entry that is no name held before does not
/// matter, so resolving a resolved table changes nothing.
pub fn symbol_table_postprocess(syms: &mut [TableEntry])
    ensures
        final(syms)@.len() == old(syms)@.len(),
        table_view(final(syms)@) == resolved(table_view(old(syms)@)),
        well_resolved(table_view(final(syms)@)),
        forall|addr: int|
            0 <= addr < final(syms)@.len() ==> anchored(table_view(final(syms)@), addr),
{
    let ghost before = table_view(syms@);
    let n: usize = syms.len();
    let mut current_idx: usize = 0;
    let mut last_symbol_idx: Option<usize> = None;
    while current_idx < n
        invariant
            n == syms@.len(),
            before.len() == n,
            current_idx <= n,
            match last_symbol_idx {
                Some(anchor) => anchor_of(before, current_idx - 1) == Some(anchor as int),
                None => anchor_of(before, current_idx - 1) is None,
            },
            forall|j: int| 0 <= j < current_idx ==> (#[trigger] syms@[j])@ == resolved_entry(before, j),
            forall|j: int| current_idx <= j < n ==> (#[trigger] syms@[j])@ == before[j],
        decreases n - current_idx,
    {
        let named: bool = match &syms[current_idx] {
            TableEntry::Symbol(_) => true,
            _ => false,
        };
        if named {
            last_symbol_idx = Some(current_idx);
        } else {
            proof {
                lemma_anchor_of(before, current_idx as int);
            }
            syms[current_idx] = match last_symbol_idx {
                Some(anchor) => TableEntry::Relative(current_idx - anchor),
                None => TableEntry::Unknown,
            };
        }
        current_idx += 1;
    }
    proof {
        lemma_resolved_is_well_resolved(before);
    }
}

/// The text that a lookup of `addr` gives: the name of a named address;
/// for an address after one, that name, `+0x` and the distance in
/// upper-case hexadecimal; `?` for an address below every name.
pub open spec fn query_text(table: Seq<EntryView>, addr: int) -> Seq<char> {
    match table[addr] {
        EntryView::Symbol(name) => name,
        EntryView::Relative(offset) => table[addr - offset]->Symbol_0 + seq!['+', '0', 'x']
            + upper_hex(offset),
        EntryView::Unknown => seq!['?'],
    }
}

/// In a resolved table a lookup names the nearest name at or below the
/// address: the name itself at a named address, the name and the distance
/// above it, and `?` where no name lies at or below.
pub proof fn lemma_query_names_nearest(table: Seq<EntryView>, addr: int)
    requires
        0 <= addr < table.len(),
    ensures
        query_text(resolved(table), addr) == match anchor_of(table, addr) {
            Some(anchor) => if anchor == addr {
                table[anchor]->Symbol_0
            } else {
                table[anchor]->Symbol_0 + seq!['+', '0', 'x'] + upper_hex((addr - anchor) as nat)
            },
            None => seq!['?'],
        },
{
    lemma_anchor_of(table, addr);
}

/// Tells whether `addr` can be looked up in the table.
pub fn is_anchored(symbol_table: &[TableEntry], addr: usize) -> (ok: bool)
    ensures
        ok == anchored(table_view(symbol_table@), addr as int),
{
    if addr >= symbol_table.len() {
        return false;
    }
    match &symbol_table[addr] {
        TableEntry::Relative(offset) => {
            if *offset > addr {
                false
            } else {
                match &symbol_table[addr - *offset] {
                    TableEntry::Symbol(_) => true,
                    _ => false,
                }
            }
        },
        _ => true,
    }
}

/// Looks up the nearest symbol of `addr`.
///
/// The address has to lie in the table, and a relative entry there has to
/// point at a name, as every entry of a resolved table does.
pub fn symbol_table_query(symbol_table: &[TableEntry], addr: usize) -> (text: String)
    requires
        anchored(table_view(symbol_table@), addr as int),
    ensures
        text@ == query_text(table_view(symbol_table@), addr as int),
{
    match &symbol_table[addr] {
        TableEntry::Symbol(name) => name.clone(),
        TableEntry::Relative(offset) => {
            proof {
                reveal_strlit("+0x");
            }
            let anchor: &TableEntry = &symbol_table[addr - *offset];
            let mut text: String = String::from_str(anchor.unwrap_symbol_name());
            text.append("+0x");
            let distance: String = to_upper_hex(*offset);
            text.append(distance.as_str());
            text
        },
        TableEntry::Unknown => {
            proof {
                reveal_strlit("?");
            }
            let text: String = String::from_str("?");
            text
        },
    }
}

/// Whether `word` is the mnemonic of an instruction whose operand is an
/// offset from the program counter: the branches, `LD`, `LDI`, `LEA`, `ST`
/// and `STI`.
pub open spec fn is_relative_mnemonic(word: Seq<char>) -> bool {
    ||| word == seq!['B', 'R']
    ||| word == seq!['B', 'R', 'n']
    ||| word == seq!['B', 'R', 'z']
    ||| word == seq!['B', 'R', 'p']
    ||| word == seq!['B', 'R', 'n', 'z']
    ||| word == seq!['B', 'R', 'z', 'p']
    ||| word == seq!['B', 'R', 'n', 'p']
    ||| word == seq!['B', 'R', 'n', 'z', 'p']
    ||| word == seq!['L', 'D']
    ||| word == seq!['L', 'D', 'I']
    ||| word == seq!['L', 'E', 'A']
    ||| word == seq!['S', 'T']
    ||| word == seq!['S', 'T', 'I']
}

/// The offset that an instruction's text ends in: its last word without
/// the mark in front, read as a signed decimal number.
pub open spec fn operand_of(instruction: Seq<char>) -> Option<i32> {
    let word = last_word(instruction);
    if word.len() == 0 {
        None
    } else {
        parsed_i32(word.skip(1), 10)
    }
}

/// The address that the instruction at `addr` refers to: the address after
/// it, moved by the operand.
pub open spec fn target_of(instruction: Seq<char>, addr: int) -> Option<int> {
    match operand_of(instruction) {
        Some(offset) => Some(addr + 1 + offset),
        None => None,
    }
}

/// Whether the instruction can be decorated: either its mnemonic takes no
/// relative operand, or its operand is well formed and its target can be
/// looked up.
pub open spec fn decorable(table: Seq<EntryView>, instruction: Seq<char>, addr: int) -> bool {
    is_relative_mnemonic(first_word(instruction)) ==> match target_of(instruction, addr) {
        Some(target) => anchored(table, target),
        None => false,
    }
}

/// The decoration of the instruction at `addr`: for an instruction with a
/// relative operand the symbol of its target, in parentheses after a space;
/// nothing for any other.
pub open spec fn decoration(table: Seq<EntryView>, instruction: Seq<char>, addr: int) -> Seq<
    char,
> {
    if is_relative_mnemonic(first_word(instruction)) {
        seq![' ', '('] + query_text(table, target_of(instruction, addr)->0) + seq![')']
    } else {
        Seq::empty()
    }
}

fn is_relative(word: &str) -> (relative: bool)
    ensures
        relative == is_relative_mnemonic(word@),
{
    proof {
        reveal_strlit("BR");
        reveal_strlit("BRn");
        reveal_strlit("BRz");
        reveal_strlit("BRp");
        reveal_strlit("BRnz");
        reveal_strlit("BRzp");
        reveal_strlit("BRnp");
        reveal_strlit("BRnzp");
        reveal_strlit("LD");
        reveal_strlit("LDI");
        reveal_strlit("LEA");
        reveal_strlit("ST");
        reveal_strlit("STI");
        assert("BR"@ =~= seq!['B', 'R']);
        assert("BRn"@ =~= seq!['B', 'R', 'n']);
        assert("BRz"@ =~= seq!['B', 'R', 'z']);
        assert("BRp"@ =~= seq!['B', 'R', 'p']);
        assert("BRnz"@ =~= seq!['B', 'R', 'n', 'z']);
        assert("BRzp"@ =~= seq!['B', 'R', 'z', 'p']);
        assert("BRnp"@ =~= seq!['B', 'R', 'n', 'p']);
        assert("BRnzp"@ =~= seq!['B', 'R', 'n', 'z', 'p']);
        assert("LD"@ =~= seq!['L', 'D']);
        assert("LDI"@ =~= seq!['L', 'D', 'I']);
        assert("LEA"@ =~= seq!['L', 'E', 'A']);
        assert("ST"@ =~= seq!['S', 'T']);
        assert("STI"@ =~= seq!['S', 'T', 'I']);
    }
    text_eq(word, "BR") || text_eq(word, "BRn") || text_eq(word, "BRz") || text_eq(word, "BRp")
        || text_eq(word, "BRnz") || text_eq(word, "BRzp") || text_eq(word, "BRnp") || text_eq(
        word,
        "BRnzp",
    ) || text_eq(word, "LD") || text_eq(word, "LDI") || text_eq(word, "LEA") || text_eq(
        word,
        "ST",
    ) || text_eq(word, "STI")
}

/// Decorates the text of the instruction at `addr`, if it can be: `None`
/// exactly where `decorable` fails, that is, where an instruction with a
/// relative operand has a malformed operand or a target that cannot be
/// looked up.
pub fn try_decorate_instruction_str(
    symbol_table: &[TableEntry],
    instruction: &str,
    addr: usize,
) -> (r: Option<String>)
    ensures
        match r {
            Some(text) => decorable(table_view(symbol_table@), instruction@, addr as int) && text@
                == decoration(table_view(symbol_table@), instruction@, addr as int),
            None => !decorable(table_view(symbol_table@), instruction@, addr as int),
        },
{
    let chars: Vec<char> = chars_of(instruction);
    let n: usize = chars.len();
    let mnemonic_end: usize = first_word_end(&chars);
    let mnemonic: &str = instruction.substring_char(0, mnemonic_end);
    if !is_relative(mnemonic) {
        return Some(String::new());
    }
    let operand_start: usize = last_word_start(&chars);
    if operand_start == n {
        return None;
    }
    let operand: &str = instruction.substring_char(operand_start + 1, n);
    assert(operand@ =~= last_word(instruction@).skip(1));
    match i32_from_str_radix(operand, 10) {
        Err(_) => None,
        Ok(offset) => {
            let target: i128 = addr as i128 + 1 + offset as i128;
            if target < 0 || target >= symbol_table.len() as i128 {
                return None;
            }
            let target: usize = target as usize;
            if !is_anchored(symbol_table, target) {
                return None;
            }
            proof {
                reveal_strlit(" (");
                reveal_strlit(")");
            }
            let mut text: String = String::from_str(" (");
            let symbol: String = symbol_table_query(symbol_table, target);
            text.append(symbol.as_str());
            text.append(")");
            Some(text)
        },
    }
}

/// Decorates the text of the instruction at `addr` with the symbol it
/// refers to.
///
/// The text is that of a well-formed instruction: where its mnemonic takes
/// a relative operand, the last word is a mark and a signed decimal offset,
/// and the target lies where the table can be looked up.
pub fn decorate_instruction_str(symbol_table: &[TableEntry], instruction: &str, addr: usize) -> (text:
    String)
    requires
        decorable(table_view(symbol_table@), instruction@, addr as int),
    ensures
        text@ == decoration(table_view(symbol_table@), instruction@, addr as int),
{
    match try_decorate_instruction_str(symbol_table, instruction, addr) {
        Some(text) => text,
        None => vstd::pervasive::unreached(),
    }
}

/// The named addresses of the table with their names, from the lowest
/// address up.
pub open spec fn named_addresses(table: Seq<EntryView>) -> Seq<(nat, Seq<char>)>
    decreases table.len(),
{
    if table.len() == 0 {
        Seq::empty()
    } else {
        let below = named_addresses(table.drop_last());
        match table.last() {
            EntryView::Symbol(name) => below.push(((table.len() - 1) as nat, name)),
            _ => below,
        }
    }
}

/// A listing by address as values.
pub open spec fn by_address_view(rows: Seq<(usize, String)>) -> Seq<(nat, Seq<char>)> {
    Seq::new(rows.len(), |i: int| (rows[i].0 as nat, rows[i].1@))
}

/// A listing by name as values.
pub open spec fn by_name_view(rows: Seq<(String, usize)>) -> Seq<(Seq<char>, nat)> {
    Seq::new(rows.len(), |i: int| (rows[i].0@, rows[i].1 as nat))
}

/// Whether `a` comes no later than `b` when texts are ordered character by
/// character, a text before its extensions.
pub open spec fn text_le(a: Seq<char>, b: Seq<char>) -> bool
    decreases a.len(),
{
    if a.len() == 0 {
        true
    } else if b.len() == 0 {
        false
    } else if a[0] != b[0] {
        a[0] < b[0]
    } else {
        text_le(a.skip(1), b.skip(1))
    }
}

/// Whether row `a` comes no later than row `b` in a listing by name: by
/// name first, by address among equal names.
pub open spec fn by_name_le(a: (Seq<char>, nat), b: (Seq<char>, nat)) -> bool {
    if a.0 == b.0 {
        a.1 <= b.1
    } else {
        text_le(a.0, b.0)
    }
}

/// `<[T]>::sort_unstable` on rows of a name and an address. Trusted: the
/// standard library documents that it rearranges the slice into ascending
/// order, that tuples are ordered by their first field and then their
/// second, and that strings are ordered by their characters' codes.
#[verifier::external_body]
fn sort_unstable(rows: &mut Vec<(String, usize)>)
    ensures
        by_name_view(final(rows)@).to_multiset() == by_name_view(old(rows)@).to_multiset(),
        forall|i: int, j: int|
            0 <= i <= j < final(rows)@.len() ==> by_name_le(
                #[trigger] by_name_view(final(rows)@)[i],
                #[trigger] by_name_view(final(rows)@)[j],
            ),
{
    rows.sort_unstable();
}

/// Lists the named addresses of the table, from the lowest address up.
pub fn symbols_by_address(symbol_table: &[TableEntry]) -> (rows: Vec<(usize, String)>)
    ensures
        by_address_view(rows@) == named_addresses(table_view(symbol_table@)),
{
    let ghost table = table_view(symbol_table@);
    let mut rows: Vec<(usize, String)> = Vec::new();
    let n: usize = symbol_table.len();
    let mut addr: usize = 0;
    while addr < n
        invariant
            n == symbol_table@.len(),
            table == table_view(symbol_table@),
            addr <= n,
            by_address_view(rows@) == named_addresses(table.take(addr as int)),
        decreases n - addr,
    {
        assert(table.take(addr + 1).drop_last() =~= table.take(addr as int));
        match &symbol_table[addr] {
            TableEntry::Symbol(name) => {
                rows.push((addr, name.clone()));
            },
            _ => {},
        }
        addr += 1;
    }
    assert(table.take(n as int) =~= table);
    rows
}

/// Lists the named addresses of the table by name, and by address among
/// equal names: the rows of `symbols_by_address`, each turned around, in
/// ascending order.
pub fn symbols_by_name(symbol_table: &[TableEntry]) -> (rows: Vec<(String, usize)>)
    ensures
        by_name_view(rows@).to_multiset() == named_addresses(table_view(symbol_table@)).map_values(
            |row: (nat, Seq<char>)| (row.1, row.0),
        ).to_multiset(),
        forall|i: int, j: int|
            0 <= i <= j < rows@.len() ==> by_name_le(
                #[trigger] by_name_view(rows@)[i],
                #[trigger] by_name_view(rows@)[j],
            ),
{
    let by_address: Vec<(usize, String)> = symbols_by_address(symbol_table);
    let ghost listed = by_address_view(by_address@);
    let mut rows: Vec<(String, usize)> = Vec::new();
    let n: usize = by_address.len();
    let mut i: usize = 0;
    while i < n
        invariant
            n == by_address@.len(),
            listed == by_address_view(by_address@),
            i <= n,
            by_name_view(rows@) == listed.take(i as int).map_values(
                |row: (nat, Seq<char>)| (row.1, row.0),
            ),
        decreases n - i,
    {
        let row: &(usize, String) = &by_address[i];
        let ghost turned = by_name_view(rows@);
        rows.push((row.1.clone(), row.0));
        assert(by_name_view(rows@) =~= turned.push((row.1@, row.0 as nat)));
        i += 1;
    }
    assert(listed.take(n as int) =~= listed);
    sort_unstable(&mut rows);
    rows
}

} // verus!
