use vstd::prelude::*;
use vstd::string::*;

verus! {

/// `n` copies of `c`.
pub open spec fn repeated(c: char, n: nat) -> Seq<char> {
    Seq::new(n, |i: int| c)
}

/// `n` copies of the one-character text `unit`.
fn repeat_text(unit: &str, n: usize) -> (r: String)
    requires
        unit@.len() == 1,
    ensures
        r@ == repeated(unit@[0], n as nat),
{
    let mut s = String::new();
    let mut i: usize = 0;
    while i < n
        invariant
            i <= n,
            unit@.len() == 1,
            s@ == repeated(unit@[0], i as nat),
        decreases n - i,
    {
        s.append(unit);
        i = i + 1;
        assert(s@ =~= repeated(unit@[0], i as nat));
    }
    s
}

/// Number of spaces placed on each side of a title centred in a banner.
pub fn banner_padding(width: usize, title_len: usize) -> (r: usize)
    ensures
        title_len <= width ==> r == (width - title_len) / 2,
        title_len > width ==> r == 0,
{
    width.saturating_sub(title_len) / 2
}

/// A title centred in a banner `width` characters wide, padded with spaces
/// on both sides; a title wider than the banner gets no padding.
pub fn banner_title(title: &str, width: usize) -> (r: String)
    ensures
        ({
            let p = if title@.len() <= width { (width - title@.len()) / 2 } else { 0 };
            r@ == repeated(' ', p as nat) + title@ + repeated(' ', p as nat)
        }),
{
    let p = banner_padding(width, title.unicode_len());
    proof {
        reveal_strlit(" ");
    }
    let mut s = repeat_text(" ", p);
    s.append(title);
    let pad = repeat_text(" ", p);
    s.append(pad.as_str());
    s
}

/// A line of `width` `=` characters.
pub fn banner_rule(width: usize) -> (r: String)
    ensures
        r@ == repeated('=', width as nat),
{
    proof {
        reveal_strlit("=");
    }
    repeat_text("=", width)
}

/// The report for a component whose installed version is the latest.
pub fn up_to_date_message(component: &str, version: &str) -> (r: String)
    ensures
        r@ == component@ + " is up-to-date (version "@ + version@ + ")."@,
{
    let mut s = String::from_str(component);
    s.append(" is up-to-date (version ");
    s.append(version);
    s.append(").");
    s
}

/// A key read while a secret is typed.
#[derive(PartialEq, Eq, Structural, Clone, Copy, Debug)]
pub enum Key {
    Enter,
    Backspace,
    Char(char),
    Other,
}

/// A secret being typed, shown on the console as one `*` per character.
#[derive(Debug)]
pub struct SecretInput {
    pub chars: Vec<char>,
}

/// What a key press did.
#[derive(Debug)]
pub struct KeyEffect {
    /// The secret is complete.
    pub done: bool,
    /// What to print so that the console shows the masked secret.
    pub echo: String,
}

impl SecretInput {
    pub fn new() -> (r: SecretInput)
        ensures
            r.chars@ == Seq::<char>::empty(),
    {
        SecretInput { chars: Vec::new() }
    }

    /// Applies one key: Enter completes the secret, Backspace removes the last
    /// character and redraws the mask, a character is appended and masked,
    /// other keys are ignored.
    pub fn press(&mut self, key: Key) -> (r: KeyEffect)
        ensures
            match key {
                Key::Enter => r.done && r.echo@ == "\n"@ && final(self).chars@ == old(self).chars@,
                Key::Backspace => !r.done && if old(self).chars@.len() > 0 {
                    &&& final(self).chars@ == old(self).chars@.drop_last()
                    &&& r.echo@ == "\r"@ + repeated('*', (old(self).chars@.len() - 1) as nat) + " \r"@
                } else {
                    final(self).chars@ == old(self).chars@ && r.echo@.len() == 0
                },
                Key::Char(c) => !r.done && final(self).chars@ == old(self).chars@.push(c)
                    && r.echo@ == "*"@,
                Key::Other => !r.done && final(self).chars@ == old(self).chars@ && r.echo@.len() == 0,
            },
    {
        match key {
            Key::Enter => KeyEffect { done: true, echo: String::from_str("\n") },
            Key::Backspace => {
                if self.chars.len() > 0 {
                    self.chars.pop();
                    proof {
                        reveal_strlit("*");
                    }
                    let mut echo = String::from_str("\r");
                    let stars = repeat_text("*", self.chars.len());
                    echo.append(stars.as_str());
                    echo.append(" \r");
                    KeyEffect { done: false, echo }
                } else {
                    KeyEffect { done: false, echo: String::new() }
                }
            },
            Key::Char(c) => {
                self.chars.push(c);
                KeyEffect { done: false, echo: String::from_str("*") }
            },
            Key::Other => KeyEffect { done: false, echo: String::new() },
        }
    }
}

} // verus!
