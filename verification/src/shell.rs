use vstd::prelude::*;

use crate::protocol::KeyInput;

verus! {

/// Bytes the shell's line buffer holds.
pub const LINE_CAPACITY: usize = 128;
/// Ticks between two flips of the blinking cursor.
pub const BLINK_TICKS: u64 = 9;

/// A character the line editor stores and echoes: space or printable ASCII.
pub open spec fn is_line_char(c: char) -> bool {
    0x20 <= (c as u32) <= 0x7E
}

/// The input line being typed at the shell prompt.
pub struct LineEditor {
    buf: Vec<u8>,
    cap: usize,
}

/// What the terminal must do after a key press.
#[derive(Debug)]
pub enum EditAction {
    /// Enter: run this line; the editor is empty again.
    Submit(Vec<u8>),
    /// Erase the last character on screen.
    Erase,
    /// Print this character.
    Echo(u8),
    /// Nothing changes.
    Ignore,
}

impl View for LineEditor {
    type V = Seq<u8>;

    closed spec fn view(&self) -> Seq<u8> {
        self.buf@
    }
}

impl LineEditor {
    /// How many characters the line may hold.
    pub closed spec fn capacity(&self) -> nat {
        self.cap as nat
    }

    /// The line fits the buffer and holds only line characters.
    pub closed spec fn wf(&self) -> bool {
        &&& self.buf@.len() <= self.cap
        &&& forall|i: int| 0 <= i < self.buf@.len() ==> 0x20 <= #[trigger] self.buf@[i] <= 0x7E
    }

    /// An empty line of at most `LINE_CAPACITY` characters.
    pub fn new() -> (e: LineEditor)
        ensures
            e.wf(),
            e@ == Seq::<u8>::empty(),
            e.capacity() == LINE_CAPACITY,
    {
        LineEditor { buf: Vec::new(), cap: LINE_CAPACITY }
    }

    /// An empty line with no practical length limit.
    pub fn unbounded() -> (e: LineEditor)
        ensures
            e.wf(),
            e@ == Seq::<u8>::empty(),
            e.capacity() == usize::MAX,
    {
        LineEditor { buf: Vec::new(), cap: usize::MAX }
    }

    /// The line typed so far.
    pub fn line(&self) -> (r: &[u8])
        ensures
            r@ == self@,
    {
        self.buf.as_slice()
    }

    /// Applies one key: Enter submits the line, backspace or delete erases
    /// the last character, a line character is appended while there is
    /// room, and anything else is ignored.
    pub fn handle_key(&mut self, c: char) -> (r: EditAction)
        requires
            old(self).wf(),
        ensures
            final(self).wf(),
            final(self).capacity() == old(self).capacity(),
            edited(*old(self), *final(self), c, r),
    {
        let code = c as u32;
        if c == '\n' {
            let mut line: Vec<u8> = Vec::new();
            core::mem::swap(&mut line, &mut self.buf);
            EditAction::Submit(line)
        } else if c == '\x08' || c == '\x7f' {
            if self.buf.len() > 0 {
                self.buf.pop();
                EditAction::Erase
            } else {
                EditAction::Ignore
            }
        } else if 0x20 <= code && code <= 0x7E {
            if self.buf.len() < self.cap {
                let b = code as u8;
                self.buf.push(b);
                EditAction::Echo(b)
            } else {
                EditAction::Ignore
            }
        } else {
            EditAction::Ignore
        }
    }

    /// Applies a decoded key: a character as `handle_key` does, the
    /// backspace key as a backspace character, any other key not at all.
    pub fn handle_input(&mut self, key: KeyInput) -> (r: EditAction)
        requires
            old(self).wf(),
        ensures
            final(self).wf(),
            final(self).capacity() == old(self).capacity(),
            input_effect(*old(self), *final(self), key, r),
    {
        match key {
            KeyInput::Unicode(c) => self.handle_key(c),
            KeyInput::Backspace => self.handle_key('\x08'),
            KeyInput::OtherRaw => EditAction::Ignore,
        }
    }
}

/// The effect of key `c` on the line `before`, giving `after` and the
/// terminal action `r`: Enter submits the line and empties it, backspace or
/// delete drops the last character (if any), a line character is appended
/// while there is room, and anything else changes nothing.
pub open spec fn edited(before: LineEditor, after: LineEditor, c: char, r: EditAction) -> bool {
    &&& c == '\n' ==> (r matches EditAction::Submit(v) && v@ == before@ && after@ == Seq::<
        u8,
    >::empty())
    &&& (c == '\x08' || c == '\x7f') && before@.len() > 0 ==> (r is Erase && after@
        == before@.drop_last())
    &&& (c == '\x08' || c == '\x7f') && before@.len() == 0 ==> (r is Ignore && after@ == before@)
    &&& is_line_char(c) && before@.len() < before.capacity() ==> (r == EditAction::Echo(c as u8)
        && after@ == before@.push(c as u8))
    &&& is_line_char(c) && before@.len() >= before.capacity() ==> (r is Ignore && after@
        == before@)
    &&& !(c == '\n' || c == '\x08' || c == '\x7f' || is_line_char(c)) ==> (r is Ignore && after@
        == before@)
}

/// The character a decoded key stands for at the prompt: its own character,
/// backspace for the backspace key, and NUL (which the editor ignores) for
/// any other key.
pub open spec fn key_char(key: KeyInput) -> char {
    match key {
        KeyInput::Unicode(c) => c,
        KeyInput::Backspace => '\x08',
        KeyInput::OtherRaw => '\0',
    }
}

/// What `handle_input` does with a decoded key: what typing its character
/// does; another key without a character changes nothing.
pub open spec fn input_effect(before: LineEditor, after: LineEditor, key: KeyInput, r: EditAction) -> bool {
    match key {
        KeyInput::Unicode(c) => edited(before, after, c, r),
        KeyInput::Backspace => edited(before, after, '\x08', r),
        KeyInput::OtherRaw => r is Ignore && after@ == before@,
    }
}

/// The line after key `c` (other than Enter) on an editor of capacity `cap`.
pub open spec fn key_step(line: Seq<u8>, c: char, cap: nat) -> Seq<u8> {
    if c == '\x08' || c == '\x7f' {
        if line.len() > 0 {
            line.drop_last()
        } else {
            line
        }
    } else if is_line_char(c) && line.len() < cap {
        line.push(c as u8)
    } else {
        line
    }
}

/// The line after typing `keys`, one after another, into `line`.
pub open spec fn typed(line: Seq<u8>, keys: Seq<char>, cap: nat) -> Seq<u8>
    decreases keys.len(),
{
    if keys.len() == 0 {
        line
    } else {
        key_step(typed(line, keys.drop_last(), cap), keys.last(), cap)
    }
}

/// However the keys of a line are typed, corrected and cut short by the
/// capacity, the editor holds exactly the line those keys make (so Enter
/// submits it): for successive editor states linked by `handle_key`.
pub proof fn law_editor_follows_keys(eds: Seq<LineEditor>, acts: Seq<EditAction>, keys: Seq<char>)
    requires
        eds.len() == keys.len() + 1,
        acts.len() == keys.len(),
        forall|i: int| 0 <= i < keys.len() ==> #[trigger] keys[i] != '\n',
        forall|i: int|
            0 <= i < keys.len() ==> #[trigger] edited(eds[i], eds[i + 1], keys[i], acts[i]),
        forall|i: int| 0 <= i < eds.len() ==> #[trigger] eds[i].capacity() == eds[0].capacity(),
    ensures
        eds.last()@ == typed(eds[0]@, keys, eds[0].capacity()),
    decreases keys.len(),
{
    if keys.len() > 0 {
        let k = keys.len() - 1;
        let pre = eds.drop_last();
        let pre_acts = acts.drop_last();
        let pre_keys = keys.drop_last();
        assert forall|i: int| 0 <= i < pre_keys.len() implies #[trigger] pre_keys[i] != '\n' by {
            assert(keys[i] != '\n');
        }
        assert forall|i: int| 0 <= i < pre_keys.len() implies #[trigger] edited(
            pre[i],
            pre[i + 1],
            pre_keys[i],
            pre_acts[i],
        ) by {
            assert(edited(eds[i], eds[i + 1], keys[i], acts[i]));
        }
        assert forall|i: int| 0 <= i < pre.len() implies #[trigger] pre[i].capacity() == pre[0].capacity() by {
            assert(eds[i].capacity() == eds[0].capacity());
        }
        law_editor_follows_keys(pre, pre_acts, pre_keys);
        assert(edited(eds[k], eds[k + 1], keys[k], acts[k]));
        assert(keys[k] != '\n');
        assert(eds[k].capacity() == eds[0].capacity());
    }
}

/// The same for the decoded keys of the console shell (`shell_step`): with
/// no Enter among them, the editor holds the line their characters make,
/// keys without a character changing nothing.
pub proof fn law_editor_follows_inputs(eds: Seq<LineEditor>, acts: Seq<EditAction>, keys: Seq<KeyInput>)
    requires
        eds.len() == keys.len() + 1,
        acts.len() == keys.len(),
        forall|i: int| 0 <= i < keys.len() ==> #[trigger] keys[i] != KeyInput::Unicode('\n'),
        forall|i: int|
            0 <= i < keys.len() ==> #[trigger] input_effect(eds[i], eds[i + 1], keys[i], acts[i]),
        forall|i: int| 0 <= i < eds.len() ==> #[trigger] eds[i].capacity() == eds[0].capacity(),
    ensures
        eds.last()@ == typed(eds[0]@, keys.map_values(|k: KeyInput| key_char(k)), eds[0].capacity()),
{
    let cs = keys.map_values(|k: KeyInput| key_char(k));
    assert forall|i: int| 0 <= i < cs.len() implies #[trigger] cs[i] != '\n' by {
        assert(keys[i] != KeyInput::Unicode('\n'));
    }
    assert forall|i: int| 0 <= i < cs.len() implies #[trigger] edited(eds[i], eds[i + 1], cs[i], acts[i]) by {
        assert(input_effect(eds[i], eds[i + 1], keys[i], acts[i]));
    }
    law_editor_follows_keys(eds, acts, cs);
}

/// What the blinking cursor asks of the screen.
#[derive(Debug, Clone, Copy, PartialEq, Eq)]
pub enum BlinkAction {
    /// Draw the cursor (an underscore).
    Show,
    /// Erase the cursor (a backspace).
    Hide,
}

/// The prompt's blinking cursor: whether it is drawn, and when it last changed.
#[derive(Debug, Clone, Copy)]
pub struct CursorBlink {
    pub visible: bool,
    pub last_blink: u64,
}

impl CursorBlink {
    /// A hidden cursor whose clock starts at `now`.
    pub fn new(now: u64) -> (b: CursorBlink)
        ensures
            !b.visible,
            b.last_blink == now,
    {
        CursorBlink { visible: false, last_blink: now }
    }

    /// Before a key is handled the cursor is taken off the screen: true when
    /// it was drawn and must be erased.
    pub fn hide_for_key(&mut self) -> (erase: bool)
        ensures
            erase == old(self).visible,
            !final(self).visible,
            final(self).last_blink == old(self).last_blink,
    {
        let erase = self.visible;
        self.visible = false;
        erase
    }

    /// After a key was handled the blink clock restarts at `now`.
    pub fn key_handled(&mut self, now: u64)
        ensures
            final(self).visible == old(self).visible,
            final(self).last_blink == now,
    {
        self.last_blink = now;
    }

    /// With no key pending: once `BLINK_TICKS` ticks have passed since the
    /// last change (counted with wrap-around), the cursor flips.
    pub fn tick(&mut self, now: u64) -> (r: Option<BlinkAction>)
        ensures
            ({
                let elapsed = if now >= old(self).last_blink {
                    now - old(self).last_blink
                } else {
                    now + 0x1_0000_0000_0000_0000 - old(self).last_blink
                };
                if elapsed >= BLINK_TICKS {
                    &&& r == Some(if old(self).visible { BlinkAction::Hide } else { BlinkAction::Show })
                    &&& final(self).visible == !old(self).visible
                    &&& final(self).last_blink == now
                } else {
                    r is None && *final(self) == *old(self)
                }
            }),
    {
        let elapsed = now.wrapping_sub(self.last_blink);
        if elapsed >= BLINK_TICKS {
            let action = if self.visible {
                BlinkAction::Hide
            } else {
                BlinkAction::Show
            };
            self.visible = !self.visible;
            self.last_blink = now;
            Some(action)
        } else {
            None
        }
    }
}

/// A whitespace byte, as `char::is_whitespace` sees ASCII.
pub open spec fn is_space(b: u8) -> bool {
    b == 0x20 || (0x09 <= b <= 0x0D)
}

/// First index at or after `i` (below `hi`) that is not whitespace, or `hi`.
pub open spec fn skip_space(s: Seq<u8>, i: int, hi: int) -> int
    decreases hi - i,
{
    if i >= hi {
        hi
    } else if is_space(s[i]) {
        skip_space(s, i + 1, hi)
    } else {
        i
    }
}

/// End of `s[lo..j]` once trailing whitespace is dropped.
pub open spec fn trim_end(s: Seq<u8>, j: int, lo: int) -> int
    decreases j - lo,
{
    if j <= lo {
        lo
    } else if is_space(s[j - 1]) {
        trim_end(s, j - 1, lo)
    } else {
        j
    }
}

/// First whitespace index at or after `i` (below `hi`), or `hi`.
pub open spec fn word_end(s: Seq<u8>, i: int, hi: int) -> int
    decreases hi - i,
{
    if i >= hi {
        hi
    } else if is_space(s[i]) {
        i
    } else {
        word_end(s, i + 1, hi)
    }
}

/// `s[lo..hi]` without leading and trailing whitespace.
pub open spec fn trimmed(s: Seq<u8>, lo: int, hi: int) -> Seq<u8> {
    let a = skip_space(s, lo, hi);
    s.subrange(a, trim_end(s, hi, a))
}

/// A shell command line, parsed.
#[derive(Debug)]
pub enum Command {
    /// Nothing but whitespace.
    Empty,
    Help,
    /// `echo` and the rest of the line, trimmed.
    Echo(Vec<u8>),
    Clear,
    PowerOff,
    Date,
    Lspci,
    Exit,
    /// Any other first word.
    Unknown(Vec<u8>),
}

/// The parsed meaning of a command line.
pub enum CommandView {
    Empty,
    Help,
    Echo(Seq<u8>),
    Clear,
    PowerOff,
    Date,
    Lspci,
    Exit,
    Unknown(Seq<u8>),
}

impl View for Command {
    type V = CommandView;

    open spec fn view(&self) -> CommandView {
        match self {
            Command::Empty => CommandView::Empty,
            Command::Help => CommandView::Help,
            Command::Echo(v) => CommandView::Echo(v@),
            Command::Clear => CommandView::Clear,
            Command::PowerOff => CommandView::PowerOff,
            Command::Date => CommandView::Date,
            Command::Lspci => CommandView::Lspci,
            Command::Exit => CommandView::Exit,
            Command::Unknown(v) => CommandView::Unknown(v@),
        }
    }
}

/// ASCII spellings of the command words.
pub open spec fn word_help() -> Seq<u8> {
    seq![0x68u8, 0x65, 0x6C, 0x70]
}

pub open spec fn word_echo() -> Seq<u8> {
    seq![0x65u8, 0x63, 0x68, 0x6F]
}

pub open spec fn word_clear() -> Seq<u8> {
    seq![0x63u8, 0x6C, 0x65, 0x61, 0x72]
}

pub open spec fn word_poweroff() -> Seq<u8> {
    seq![0x70u8, 0x6F, 0x77, 0x65, 0x72, 0x6F, 0x66, 0x66]
}

pub open spec fn word_date() -> Seq<u8> {
    seq![0x64u8, 0x61, 0x74, 0x65]
}

pub open spec fn word_lspci() -> Seq<u8> {
    seq![0x6Cu8, 0x73, 0x70, 0x63, 0x69]
}

pub open spec fn word_exit() -> Seq<u8> {
    seq![0x65u8, 0x78, 0x69, 0x74]
}

/// What a command line means: the line is trimmed, its first word picks the
/// command, and `echo` takes the trimmed remainder after its four letters.
pub open spec fn spec_command(line: Seq<u8>) -> CommandView {
    let a = skip_space(line, 0, line.len() as int);
    let b = trim_end(line, line.len() as int, a);
    let w = line.subrange(a, word_end(line, a, b));
    if a == b {
        CommandView::Empty
    } else if w == word_help() {
        CommandView::Help
    } else if w == word_echo() {
        CommandView::Echo(trimmed(line, a + 4, b))
    } else if w == word_clear() {
        CommandView::Clear
    } else if w == word_poweroff() {
        CommandView::PowerOff
    } else if w == word_date() {
        CommandView::Date
    } else if w == word_lspci() {
        CommandView::Lspci
    } else if w == word_exit() {
        CommandView::Exit
    } else {
        CommandView::Unknown(w)
    }
}

fn is_space_byte(b: u8) -> (r: bool)
    ensures
        r == is_space(b),
{
    b == 0x20 || (0x09 <= b && b <= 0x0D)
}

/// The first index at or after `i` that is not whitespace, or `hi`.
fn skip_space_from(s: &[u8], i: usize, hi: usize) -> (r: usize)
    requires
        i <= hi <= s@.len(),
    ensures
        r == skip_space(s@, i as int, hi as int),
        i <= r <= hi,
{
    let mut k = i;
    while k < hi && is_space_byte(s[k])
        invariant
            i <= k <= hi <= s@.len(),
            skip_space(s@, i as int, hi as int) == skip_space(s@, k as int, hi as int),
        decreases hi - k,
    {
        k = k + 1;
    }
    k
}

/// The end of `s[lo..j]` once trailing whitespace is dropped.
fn trim_end_from(s: &[u8], j: usize, lo: usize) -> (r: usize)
    requires
        lo <= j <= s@.len(),
    ensures
        r == trim_end(s@, j as int, lo as int),
        lo <= r <= j,
{
    let mut k = j;
    while k > lo && is_space_byte(s[k - 1])
        invariant
            lo <= k <= j <= s@.len(),
            trim_end(s@, j as int, lo as int) == trim_end(s@, k as int, lo as int),
        decreases k - lo,
    {
        k = k - 1;
    }
    k
}

/// The first whitespace index at or after `i`, or `hi`.
fn word_end_from(s: &[u8], i: usize, hi: usize) -> (r: usize)
    requires
        i <= hi <= s@.len(),
    ensures
        r == word_end(s@, i as int, hi as int),
        i <= r <= hi,
{
    let mut k = i;
    while k < hi && !is_space_byte(s[k])
        invariant
            i <= k <= hi <= s@.len(),
            word_end(s@, i as int, hi as int) == word_end(s@, k as int, hi as int),
        decreases hi - k,
    {
        k = k + 1;
    }
    k
}

/// Whether `s[a..b]` spells `word`.
fn range_is(s: &[u8], a: usize, b: usize, word: &[u8]) -> (r: bool)
    requires
        a <= b <= s@.len(),
    ensures
        r == (s@.subrange(a as int, b as int) == word@),
{
    if b - a != word.len() {
        return false;
    }
    let mut k: usize = 0;
    while k < word.len()
        invariant
            a <= b <= s@.len(),
            b - a == word@.len(),
            k <= word@.len(),
            forall|j: int| 0 <= j < k ==> s@[a + j] == word@[j],
        decreases word@.len() - k,
    {
        if s[a + k] != word[k] {
            assert(s@.subrange(a as int, b as int)[k as int] != word@[k as int]);
            return false;
        }
        k = k + 1;
    }
    assert(s@.subrange(a as int, b as int) =~= word@);
    true
}

fn copy_range(s: &[u8], a: usize, b: usize) -> (r: Vec<u8>)
    requires
        a <= b <= s@.len(),
    ensures
        r@ == s@.subrange(a as int, b as int),
{
    let mut r: Vec<u8> = Vec::new();
    let mut k = a;
    while k < b
        invariant
            a <= k <= b <= s@.len(),
            r@ == s@.subrange(a as int, k as int),
        decreases b - k,
    {
        r.push(s[k]);
        k = k + 1;
        assert(r@ =~= s@.subrange(a as int, k as int));
    }
    r
}

/// Parses a command line typed at the prompt (ASCII, as the line editor
/// produces it).
pub fn parse_command(line: &[u8]) -> (c: Command)
    requires
        forall|i: int| 0 <= i < line@.len() ==> #[trigger] line@[i] < 0x80,
    ensures
        c@ == spec_command(line@),
{
    let a = skip_space_from(line, 0, line.len());
    let b = trim_end_from(line, line.len(), a);
    if a == b {
        return Command::Empty;
    }
    let we = word_end_from(line, a, b);
    let help: [u8; 4] = [0x68, 0x65, 0x6C, 0x70];
    let echo: [u8; 4] = [0x65, 0x63, 0x68, 0x6F];
    let clear: [u8; 5] = [0x63, 0x6C, 0x65, 0x61, 0x72];
    let poweroff: [u8; 8] = [0x70, 0x6F, 0x77, 0x65, 0x72, 0x6F, 0x66, 0x66];
    let date: [u8; 4] = [0x64, 0x61, 0x74, 0x65];
    let lspci: [u8; 5] = [0x6C, 0x73, 0x70, 0x63, 0x69];
    let exit: [u8; 4] = [0x65, 0x78, 0x69, 0x74];
    assert(help@ == word_help());
    assert(echo@ == word_echo());
    assert(clear@ == word_clear());
    assert(poweroff@ == word_poweroff());
    assert(date@ == word_date());
    assert(lspci@ == word_lspci());
    assert(exit@ == word_exit());
    if range_is(line, a, we, help.as_slice()) {
        Command::Help
    } else if range_is(line, a, we, echo.as_slice()) {
        let ra = skip_space_from(line, a + 4, b);
        let rb = trim_end_from(line, b, ra);
        Command::Echo(copy_range(line, ra, rb))
    } else if range_is(line, a, we, clear.as_slice()) {
        Command::Clear
    } else if range_is(line, a, we, poweroff.as_slice()) {
        Command::PowerOff
    } else if range_is(line, a, we, date.as_slice()) {
        Command::Date
    } else if range_is(line, a, we, lspci.as_slice()) {
        Command::Lspci
    } else if range_is(line, a, we, exit.as_slice()) {
        Command::Exit
    } else {
        Command::Unknown(copy_range(line, a, we))
    }
}

} // verus!
