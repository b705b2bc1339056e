//! Keyboard handling of the result list and of the search bar.
//!
//! In the result list, Return hands the focused entry to its plugin; Escape
//! quits; a printable ASCII character or ASCII whitespace is typed into the
//! search bar; Up and Down move the selection one row, wrapping around at
//! either end.  In the search bar, Escape quits, and Down and Up move to the
//! first and last row of the list.

use vstd::prelude::*;

verus! {

/// The keys that the launcher reacts to.
#[derive(Clone, Copy, PartialEq, Eq, Structural)]
pub enum Key {
    Return,
    Escape,
    Up,
    Down,
    Other,
}

/// A key press: the key, and the character it stands for, if any.
#[derive(Clone, Copy)]
pub struct KeyPress {
    pub key: Key,
    pub unicode: Option<char>,
}

/// What the result list does on a key press.
#[derive(Clone, Copy)]
pub struct ListKeyResponse {
    /// Activate the focused row and hand its entry to its plugin.
    pub submit_focused: bool,
    /// Quit the launcher.
    pub quit: bool,
    /// Focus the search bar and add this character at its end.
    pub typed: Option<char>,
    /// Activate (select) the row with this index.
    pub activate: Option<usize>,
}

/// What the search bar does on a key press.
#[derive(Clone, Copy)]
pub enum InputKeyResponse {
    /// Quit the launcher.
    Quit,
    /// Activate the row with this index and focus the result list.
    FocusRow(usize),
    /// Nothing.
    Ignore,
}

/// `c` is a printable ASCII character other than space.
pub open spec fn ascii_graphic(c: char) -> bool {
    0x21 <= (c as u32) <= 0x7e
}

/// `c` is ASCII whitespace: space, tab, line feed, form feed or carriage
/// return.
pub open spec fn ascii_whitespace(c: char) -> bool {
    c == ' ' || c == '\t' || c == '\n' || c == '\x0C' || c == '\r'
}

/// The row above row `i` of a list of `n` rows, the last row above the first.
pub open spec fn row_above(i: usize, n: usize) -> usize {
    if i > 0 {
        (i - 1) as usize
    } else {
        (n - 1) as usize
    }
}

/// The row below row `i` of a list of `n` rows, the first row below the last.
pub open spec fn row_below(i: usize, n: usize) -> usize {
    if i + 1 < n {
        (i + 1) as usize
    } else {
        0
    }
}

/// The response of the result list to `press`, with the row `selected`
/// selected among `n` rows.
pub open spec fn list_response(press: KeyPress, selected: Option<usize>, n: usize) -> ListKeyResponse {
    let escape = press.key == Key::Escape;
    ListKeyResponse {
        submit_focused: press.key == Key::Return,
        quit: escape,
        typed: if escape {
            None
        } else {
            match press.unicode {
                Some(c) => if ascii_graphic(c) || ascii_whitespace(c) {
                    Some(c)
                } else {
                    None
                },
                None => None,
            }
        },
        activate: if escape || press.unicode is Some {
            None
        } else {
            match selected {
                Some(i) => if press.key == Key::Up {
                    Some(row_above(i, n))
                } else if press.key == Key::Down {
                    Some(row_below(i, n))
                } else {
                    None
                },
                None => None,
            }
        },
    }
}

/// The response of the search bar to `key`, with `n` rows in the list.
pub open spec fn input_response(key: Key, n: usize) -> InputKeyResponse {
    if key == Key::Escape {
        InputKeyResponse::Quit
    } else if key == Key::Down && n > 0 {
        InputKeyResponse::FocusRow(0)
    } else if key == Key::Up && n > 0 {
        InputKeyResponse::FocusRow((n - 1) as usize)
    } else {
        InputKeyResponse::Ignore
    }
}

fn is_typed(c: char) -> (b: bool)
    ensures
        b == (ascii_graphic(c) || ascii_whitespace(c)),
{
    let u = c as u32;
    (0x21 <= u && u <= 0x7e) || c == ' ' || c == '\t' || c == '\n' || c == '\x0C' || c == '\r'
}

/// What the result list does on a key press, with the row `selected`
/// selected among `row_count` rows.
pub fn list_key_response(press: KeyPress, selected: Option<usize>, row_count: usize) -> (r: ListKeyResponse)
    requires
        selected matches Some(i) ==> i < row_count,
    ensures
        r == list_response(press, selected, row_count),
{
    let escape = press.key == Key::Escape;
    let typed = if escape {
        None
    } else {
        match press.unicode {
            Some(c) => if is_typed(c) {
                Some(c)
            } else {
                None
            },
            None => None,
        }
    };
    let activate = if escape || press.unicode.is_some() {
        None
    } else {
        match selected {
            Some(i) => if press.key == Key::Up {
                Some(if i > 0 { i - 1 } else { row_count - 1 })
            } else if press.key == Key::Down {
                Some(if i + 1 < row_count { i + 1 } else { 0 })
            } else {
                None
            },
            None => None,
        }
    };
    ListKeyResponse { submit_focused: press.key == Key::Return, quit: escape, typed, activate }
}

/// What the search bar does on a key press, with `row_count` rows in the
/// list.
pub fn input_key_response(key: Key, row_count: usize) -> (r: InputKeyResponse)
    ensures
        r == input_response(key, row_count),
{
    if key == Key::Escape {
        InputKeyResponse::Quit
    } else if key == Key::Down && row_count > 0 {
        InputKeyResponse::FocusRow(0)
    } else if key == Key::Up && row_count > 0 {
        InputKeyResponse::FocusRow(row_count - 1)
    } else {
        InputKeyResponse::Ignore
    }
}

/// Moving down one row and then up one row comes back to the row started
/// from, and so does moving up and then down; both stay within the list.
pub proof fn lemma_up_down_round_trip(i: usize, n: usize)
    requires
        i < n,
    ensures
        row_below(i, n) < n,
        row_above(i, n) < n,
        row_above(row_below(i, n), n) == i,
        row_below(row_above(i, n), n) == i,
{
}

/// Through the key handler of the list: with row `i` of `n` selected, the
/// row that Down activates is one whose Up response activates row `i` again,
/// and the same with Up and Down exchanged.
pub proof fn lemma_list_keys_round_trip(i: usize, n: usize)
    requires
        i < n,
    ensures
        ({
            let down = KeyPress { key: Key::Down, unicode: None };
            let up = KeyPress { key: Key::Up, unicode: None };
            &&& list_response(down, Some(i), n).activate matches Some(j) && j < n && list_response(
                up,
                Some(j),
                n,
            ).activate == Some(i)
            &&& list_response(up, Some(i), n).activate matches Some(j) && j < n && list_response(
                down,
                Some(j),
                n,
            ).activate == Some(i)
        }),
{
    lemma_up_down_round_trip(i, n);
}

/// The rules of the result list's key handling: Return submits the focused
/// row and only Return does; Escape quits, types nothing and moves nothing;
/// a character is typed exactly when it is printable ASCII (codes 0x21 to
/// 0x7e) or ASCII whitespace (space, tab, line feed, form feed, carriage
/// return); a key with a character moves nothing; Up and Down without a
/// character move the selected row one up or down, wrapping around.
pub proof fn lemma_list_key_rules(press: KeyPress, selected: Option<usize>, n: usize)
    requires
        selected matches Some(i) ==> i < n,
    ensures
        list_response(press, selected, n).submit_focused <==> press.key == Key::Return,
        list_response(press, selected, n).quit <==> press.key == Key::Escape,
        press.key == Key::Escape ==> list_response(press, selected, n).typed is None
            && list_response(press, selected, n).activate is None,
        press.unicode is None ==> list_response(press, selected, n).typed is None,
        press.key != Key::Escape && press.unicode is Some ==> ({
            let c = press.unicode->0;
            let code = c as u32;
            &&& (list_response(press, selected, n).typed == Some(c)) <==> ((0x21 <= code && code <= 0x7e)
                || c == ' ' || c == '\t' || c == '\n' || c == '\x0C' || c == '\r')
            &&& list_response(press, selected, n).typed is Some ==> list_response(press, selected, n).typed
                == Some(c)
        }),
        press.unicode is Some ==> list_response(press, selected, n).activate is None,
        selected is None ==> list_response(press, selected, n).activate is None,
        press.key != Key::Up && press.key != Key::Down ==> list_response(press, selected, n).activate is None,
        press.unicode is None && press.key == Key::Down && selected is Some ==> ({
            let i = selected->0;
            &&& i + 1 < n ==> list_response(press, selected, n).activate == Some((i + 1) as usize)
            &&& i + 1 == n ==> list_response(press, selected, n).activate == Some(0usize)
        }),
        press.unicode is None && press.key == Key::Up && selected is Some ==> ({
            let i = selected->0;
            &&& i > 0 ==> list_response(press, selected, n).activate == Some((i - 1) as usize)
            &&& i == 0 ==> list_response(press, selected, n).activate == Some((n - 1) as usize)
        }),
{
}

/// The rules of the search bar's key handling: Escape quits whatever the
/// list holds; Down and Up go to the first and the last row when there is
/// one; with an empty list, or for any other key, nothing happens.
pub proof fn lemma_input_key_rules(key: Key, n: usize)
    ensures
        input_response(Key::Escape, n) == InputKeyResponse::Quit,
        n > 0 ==> input_response(Key::Down, n) == InputKeyResponse::FocusRow(0),
        n > 0 ==> input_response(Key::Up, n) == InputKeyResponse::FocusRow((n - 1) as usize),
        key != Key::Escape && n == 0 ==> input_response(key, n) == InputKeyResponse::Ignore,
        key == Key::Return || key == Key::Other ==> input_response(key, n) == InputKeyResponse::Ignore,
{
}

} // verus!
