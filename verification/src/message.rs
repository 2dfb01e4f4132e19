//! The messages that players and the game exchange, and their text form.
//!
//! A message travels as one line of JSON: `{"Move":"Up"}`,
//! `{"Position":{"x":1,"y":2}}`, `{"Score":-5}` or `"Disconnect"`. Each
//! message has exactly one text, and a text is read back only if it is the
//! text of a message.

use crate::grid::{Direction, Position};
use crate::wire::{
    after_word, chars_of, decimal, is_digit, leading_number, lemma_after_word_of_concat,
    lemma_decimal_is_digits, lemma_leading_number_of_decimal, push_decimal,
    push_signed_decimal, read_number, signed_decimal, skip_word,
};
use vstd::prelude::*;
use vstd::string::*;

verus! {

/// What a player and the game tell each other.
#[derive(Clone, Copy, Debug, PartialEq, Eq, Structural)]
pub enum Message {
    /// A player asks to move one cell.
    Move(Direction),
    /// The game tells a player where they stand.
    Position(Position),
    /// The game tells a player their score.
    Score(i32),
    /// A player announces that they leave.
    Disconnect,
}

/// A text that is not the text of any value of the type asked for.
#[derive(Clone, Copy, Debug, PartialEq, Eq, Structural)]
pub struct DecodeError;

impl Direction {
    /// The text of a direction: its name in double quotes.
    pub open spec fn text(self) -> Seq<char> {
        match self {
            Direction::Up => "\"Up\""@,
            Direction::Down => "\"Down\""@,
            Direction::Left => "\"Left\""@,
            Direction::Right => "\"Right\""@,
        }
    }

    /// The direction that `text` writes, if it writes one.
    pub open spec fn parse(text: Seq<char>) -> Option<Direction> {
        if exists|d: Direction| d.text() == text {
            Some(choose|d: Direction| d.text() == text)
        } else {
            None
        }
    }

    /// Writes the direction as text.
    pub fn to_json(&self) -> (text: String)
        ensures
            text@ == self.text(),
    {
        match self {
            Direction::Up => "\"Up\"".to_owned(),
            Direction::Down => "\"Down\"".to_owned(),
            Direction::Left => "\"Left\"".to_owned(),
            Direction::Right => "\"Right\"".to_owned(),
        }
    }

    /// Reads a direction from its text. Any other text is refused.
    pub fn from_json(json: &str) -> (r: Result<Direction, DecodeError>)
        ensures
            r == match Direction::parse(json@) {
                Some(d) => Ok::<Direction, DecodeError>(d),
                None => Err(DecodeError),
            },
    {
        let chars = chars_of(json);
        assert(chars@.skip(0) =~= json@);
        proof {
            assert forall|d: Direction| d.text() == json@ implies read_direction(json@) == Some(
                (d, Seq::<char>::empty()),
            ) by {
                lemma_read_direction(d, Seq::empty());
                assert(d.text() + Seq::<char>::empty() =~= d.text());
            }
        }
        match scan_direction(&chars, 0) {
            Some((d, _)) => {
                let again = d.to_json();
                if same_text(json, &again) {
                    Ok(d)
                } else {
                    Err(DecodeError)
                }
            },
            None => Err(DecodeError),
        }
    }
}

impl Position {
    /// The text of a position: an object with the members `x` and `y`, in
    /// that order, each in decimal.
    pub open spec fn text(self) -> Seq<char> {
        "{\"x\":"@ + (decimal(self.x as nat) + (",\"y\":"@ + (decimal(self.y as nat) + "}"@)))
    }

    /// The position that `text` writes, if it writes one.
    pub open spec fn parse(text: Seq<char>) -> Option<Position> {
        if exists|p: Position| p.text() == text {
            Some(choose|p: Position| p.text() == text)
        } else {
            None
        }
    }

    /// Writes the position as text.
    pub fn to_json(&self) -> (text: String)
        ensures
            text@ == self.text(),
    {
        let mut text = "{\"x\":".to_owned();
        push_decimal(&mut text, self.x as u32);
        text.append(",\"y\":");
        push_decimal(&mut text, self.y as u32);
        text.append("}");
        assert(text@ =~= self.text());
        text
    }

    /// Reads a position from its text. Any other text is refused.
    pub fn from_json(json: &str) -> (r: Result<Position, DecodeError>)
        ensures
            r == match Position::parse(json@) {
                Some(p) => Ok::<Position, DecodeError>(p),
                None => Err(DecodeError),
            },
    {
        let chars = chars_of(json);
        assert(chars@.skip(0) =~= json@);
        proof {
            assert forall|p: Position| p.text() == json@ implies read_position(json@) == Some(
                (p, Seq::<char>::empty()),
            ) by {
                lemma_read_position(p, Seq::empty());
                assert(p.text() + Seq::<char>::empty() =~= p.text());
            }
        }
        match scan_position(&chars, 0) {
            Some((p, _)) => {
                let again = p.to_json();
                if same_text(json, &again) {
                    Ok(p)
                } else {
                    Err(DecodeError)
                }
            },
            None => Err(DecodeError),
        }
    }
}

impl Message {
    /// The text of a message. `Disconnect` is its name in double quotes; the
    /// others are an object with one member, named after the kind of
    /// message, that holds the text of what the message carries.
    pub open spec fn text(self) -> Seq<char> {
        match self {
            Message::Move(direction) => "{\"Move\":"@ + (direction.text() + "}"@),
            Message::Position(position) => "{\"Position\":"@ + (position.text() + "}"@),
            Message::Score(score) => "{\"Score\":"@ + (signed_decimal(score as int) + "}"@),
            Message::Disconnect => "\"Disconnect\""@,
        }
    }

    /// The message that `text` writes, if it writes one.
    pub open spec fn parse(text: Seq<char>) -> Option<Message> {
        if exists|m: Message| m.text() == text {
            Some(choose|m: Message| m.text() == text)
        } else {
            None
        }
    }

    pub fn new_move(direction: Direction) -> (m: Self)
        ensures
            m == Message::Move(direction),
    {
        Self::Move(direction)
    }

    pub fn new_position(position: Position) -> (m: Self)
        ensures
            m == Message::Position(position),
    {
        Self::Position(position)
    }

    pub fn new_score(score: i32) -> (m: Self)
        ensures
            m == Message::Score(score),
    {
        Self::Score(score)
    }

    pub fn new_disconnect() -> (m: Self)
        ensures
            m == Message::Disconnect,
    {
        Self::Disconnect
    }

    /// Writes the message as text.
    pub fn to_json(&self) -> (text: String)
        ensures
            text@ == self.text(),
    {
        match self {
            Message::Move(direction) => {
                let mut text = "{\"Move\":".to_owned();
                let inner = direction.to_json();
                text.append(inner.as_str());
                text.append("}");
                assert(text@ =~= self.text());
                text
            },
            Message::Position(position) => {
                let mut text = "{\"Position\":".to_owned();
                let inner = position.to_json();
                text.append(inner.as_str());
                text.append("}");
                assert(text@ =~= self.text());
                text
            },
            Message::Score(score) => {
                let mut text = "{\"Score\":".to_owned();
                push_signed_decimal(&mut text, *score);
                text.append("}");
                assert(text@ =~= self.text());
                text
            },
            Message::Disconnect => "\"Disconnect\"".to_owned(),
        }
    }

    /// Reads a message from its text. Any other text is refused, whatever
    /// it holds: the caller gets an error and nothing else happens.
    pub fn from_json(json: &str) -> (r: Result<Message, DecodeError>)
        ensures
            r == match Message::parse(json@) {
                Some(m) => Ok::<Message, DecodeError>(m),
                None => Err(DecodeError),
            },
    {
        let chars = chars_of(json);
        assert(chars@.skip(0) =~= json@);
        proof {
            assert forall|m: Message| m.text() == json@ implies read_message(json@) == Some(
                (m, Seq::<char>::empty()),
            ) by {
                lemma_read_message(m, Seq::empty());
                assert(m.text() + Seq::<char>::empty() =~= m.text());
            }
        }
        match scan_message(&chars, 0) {
            Some((m, _)) => {
                let again = m.to_json();
                if same_text(json, &again) {
                    Ok(m)
                } else {
                    Err(DecodeError)
                }
            },
            None => Err(DecodeError),
        }
    }
}

/// Reading the text of a direction gives the direction back.
pub proof fn lemma_direction_round_trip(d: Direction)
    ensures
        Direction::parse(d.text()) == Some(d),
{
    assert forall|other: Direction| other.text() == d.text() implies other == d by {
        lemma_read_direction(d, Seq::empty());
        lemma_read_direction(other, Seq::empty());
    }
}

/// Reading the text of a position gives the position back.
pub proof fn lemma_position_round_trip(p: Position)
    ensures
        Position::parse(p.text()) == Some(p),
{
    assert forall|other: Position| other.text() == p.text() implies other == p by {
        lemma_read_position(p, Seq::empty());
        lemma_read_position(other, Seq::empty());
    }
}

/// Reading the text of a message gives the message back, whichever of the
/// four kinds it is and whatever it carries.
pub proof fn lemma_message_round_trip(m: Message)
    ensures
        Message::parse(m.text()) == Some(m),
{
    lemma_message_texts_differ(m, choose|other: Message| other.text() == m.text());
}

/// Two messages with the same text are the same message.
pub proof fn lemma_message_texts_differ(a: Message, b: Message)
    requires
        a.text() == b.text(),
    ensures
        a == b,
{
    lemma_read_message(a, Seq::empty());
    lemma_read_message(b, Seq::empty());
}

/// Whether the two texts are the same.
fn same_text(a: &str, b: &String) -> (same: bool)
    ensures
        same == (a@ == b@),
{
    let owned = a.to_owned();
    owned == *b
}

/// A number at the start of `s` that fits a coordinate, and what follows.
spec fn read_coordinate(s: Seq<char>) -> Option<(u16, Seq<char>)> {
    match leading_number(s) {
        Some((value, rest)) => if value <= u16::MAX {
            Some((value as u16, rest))
        } else {
            None
        },
        None => None,
    }
}

/// A number with an optional `'-'` at the start of `s` that fits a score,
/// and what follows.
spec fn read_score(s: Seq<char>) -> Option<(i32, Seq<char>)> {
    match after_word(s, "-"@) {
        Some(unsigned) => match leading_number(unsigned) {
            Some((value, rest)) => if value <= -(i32::MIN as int) {
                Some(((-(value as int)) as i32, rest))
            } else {
                None
            },
            None => None,
        },
        None => match leading_number(s) {
            Some((value, rest)) => if value <= i32::MAX {
                Some((value as i32, rest))
            } else {
                None
            },
            None => None,
        },
    }
}

/// A direction at the start of `s`, and what follows.
spec fn read_direction(s: Seq<char>) -> Option<(Direction, Seq<char>)> {
    match after_word(s, "\"Up\""@) {
        Some(rest) => Some((Direction::Up, rest)),
        None => match after_word(s, "\"Down\""@) {
            Some(rest) => Some((Direction::Down, rest)),
            None => match after_word(s, "\"Left\""@) {
                Some(rest) => Some((Direction::Left, rest)),
                None => match after_word(s, "\"Right\""@) {
                    Some(rest) => Some((Direction::Right, rest)),
                    None => None,
                },
            },
        },
    }
}

/// A position at the start of `s`, and what follows.
spec fn read_position(s: Seq<char>) -> Option<(Position, Seq<char>)> {
    match after_word(s, "{\"x\":"@) {
        None => None,
        Some(s1) => match read_coordinate(s1) {
            None => None,
            Some((x, s2)) => match after_word(s2, ",\"y\":"@) {
                None => None,
                Some(s3) => match read_coordinate(s3) {
                    None => None,
                    Some((y, s4)) => match after_word(s4, "}"@) {
                        None => None,
                        Some(rest) => Some((Position { x, y }, rest)),
                    },
                },
            },
        },
    }
}

/// A message at the start of `s`, and what follows.
spec fn read_message(s: Seq<char>) -> Option<(Message, Seq<char>)> {
    match after_word(s, "\"Disconnect\""@) {
        Some(rest) => Some((Message::Disconnect, rest)),
        None => match after_word(s, "{\"Move\":"@) {
            Some(s1) => match read_direction(s1) {
                None => None,
                Some((direction, s2)) => match after_word(s2, "}"@) {
                    None => None,
                    Some(rest) => Some((Message::Move(direction), rest)),
                },
            },
            None => match after_word(s, "{\"Position\":"@) {
                Some(s1) => match read_position(s1) {
                    None => None,
                    Some((position, s2)) => match after_word(s2, "}"@) {
                        None => None,
                        Some(rest) => Some((Message::Position(position), rest)),
                    },
                },
                None => match after_word(s, "{\"Score\":"@) {
                    Some(s1) => match read_score(s1) {
                        None => None,
                        Some((score, s2)) => match after_word(s2, "}"@) {
                            None => None,
                            Some(rest) => Some((Message::Score(score), rest)),
                        },
                    },
                    None => None,
                },
            },
        },
    }
}

/// The text of a direction, followed by anything, reads back as the
/// direction and what followed.
proof fn lemma_read_direction(d: Direction, rest: Seq<char>)
    ensures
        read_direction(d.text() + rest) == Some((d, rest)),
{
    reveal_strlit("\"Up\"");
    reveal_strlit("\"Down\"");
    reveal_strlit("\"Left\"");
    reveal_strlit("\"Right\"");
    let s = d.text() + rest;
    lemma_after_word_of_concat(d.text(), rest);
    match d {
        Direction::Up => {},
        Direction::Down => {
            assert(s[1] == 'D');
            assert("\"Up\""@.len() <= s.len() ==> s.take("\"Up\""@.len() as int)[1] == 'D');
        },
        Direction::Left => {
            assert(s[1] == 'L');
            assert("\"Up\""@.len() <= s.len() ==> s.take("\"Up\""@.len() as int)[1] == 'L');
            assert("\"Down\""@.len() <= s.len() ==> s.take("\"Down\""@.len() as int)[1] == 'L');
        },
        Direction::Right => {
            assert(s[1] == 'R');
            assert("\"Up\""@.len() <= s.len() ==> s.take("\"Up\""@.len() as int)[1] == 'R');
            assert("\"Down\""@.len() <= s.len() ==> s.take("\"Down\""@.len() as int)[1] == 'R');
            assert("\"Left\""@.len() <= s.len() ==> s.take("\"Left\""@.len() as int)[1] == 'R');
        },
    }
}

/// A coordinate in decimal, followed by something that does not go on with
/// a digit, reads back as the coordinate and what followed.
proof fn lemma_read_coordinate(n: u16, rest: Seq<char>)
    requires
        rest.len() == 0 || !is_digit(rest[0]),
    ensures
        read_coordinate(decimal(n as nat) + rest) == Some((n, rest)),
{
    lemma_leading_number_of_decimal(n as nat, rest);
}

/// The text of a position, followed by anything, reads back as the position
/// and what followed.
proof fn lemma_read_position(p: Position, rest: Seq<char>)
    ensures
        read_position(p.text() + rest) == Some((p, rest)),
{
    reveal_strlit("{\"x\":");
    reveal_strlit(",\"y\":");
    reveal_strlit("}");
    let s4 = "}"@ + rest;
    let s3 = decimal(p.y as nat) + s4;
    let s2 = ",\"y\":"@ + s3;
    let s1 = decimal(p.x as nat) + s2;
    let s = "{\"x\":"@ + s1;
    assert(p.text() + rest =~= s);
    lemma_after_word_of_concat("{\"x\":"@, s1);
    assert(s2[0] == ',');
    lemma_read_coordinate(p.x, s2);
    lemma_after_word_of_concat(",\"y\":"@, s3);
    assert(s4[0] == '}');
    lemma_read_coordinate(p.y, s4);
    lemma_after_word_of_concat("}"@, rest);
}

/// A score in decimal, followed by something that does not go on with a
/// digit, reads back as the score and what followed.
proof fn lemma_read_score(n: i32, rest: Seq<char>)
    requires
        rest.len() == 0 || !is_digit(rest[0]),
    ensures
        read_score(signed_decimal(n as int) + rest) == Some((n, rest)),
{
    reveal_strlit("-");
    let s = signed_decimal(n as int) + rest;
    if n < 0 {
        let magnitude = (-(n as int)) as nat;
        let unsigned = decimal(magnitude) + rest;
        assert("-"@ =~= seq!['-']);
        assert(s =~= "-"@ + unsigned);
        lemma_after_word_of_concat("-"@, unsigned);
        lemma_leading_number_of_decimal(magnitude, rest);
    } else {
        lemma_decimal_is_digits(n as nat);
        assert(s[0] == decimal(n as nat)[0]);
        assert(is_digit(s[0]));
        assert("-"@.len() <= s.len() ==> s.take("-"@.len() as int)[0] == s[0]);
        lemma_leading_number_of_decimal(n as nat, rest);
    }
}

/// The text of a message, followed by anything, reads back as the message
/// and what followed.
proof fn lemma_read_message(m: Message, rest: Seq<char>)
    ensures
        read_message(m.text() + rest) == Some((m, rest)),
{
    reveal_strlit("\"Disconnect\"");
    reveal_strlit("{\"Move\":");
    reveal_strlit("{\"Position\":");
    reveal_strlit("{\"Score\":");
    reveal_strlit("}");
    let s = m.text() + rest;
    let close = "}"@ + rest;
    assert(close[0] == '}');
    lemma_after_word_of_concat("}"@, rest);
    match m {
        Message::Disconnect => {
            lemma_after_word_of_concat("\"Disconnect\""@, rest);
        },
        Message::Move(direction) => {
            let s1 = direction.text() + close;
            assert(s =~= "{\"Move\":"@ + s1);
            assert(s[0] == '{');
            assert("\"Disconnect\""@.len() <= s.len() ==> s.take(
                "\"Disconnect\""@.len() as int,
            )[0] == '{');
            lemma_after_word_of_concat("{\"Move\":"@, s1);
            lemma_read_direction(direction, close);
        },
        Message::Position(position) => {
            let s1 = position.text() + close;
            assert(s =~= "{\"Position\":"@ + s1);
            assert(s[0] == '{');
            assert(s[2] == 'P');
            assert("\"Disconnect\""@.len() <= s.len() ==> s.take(
                "\"Disconnect\""@.len() as int,
            )[0] == '{');
            assert("{\"Move\":"@.len() <= s.len() ==> s.take("{\"Move\":"@.len() as int)[2]
                == 'P');
            lemma_after_word_of_concat("{\"Position\":"@, s1);
            lemma_read_position(position, close);
        },
        Message::Score(score) => {
            let s1 = signed_decimal(score as int) + close;
            assert(s =~= "{\"Score\":"@ + s1);
            assert(s[0] == '{');
            assert(s[2] == 'S');
            assert("\"Disconnect\""@.len() <= s.len() ==> s.take(
                "\"Disconnect\""@.len() as int,
            )[0] == '{');
            assert("{\"Move\":"@.len() <= s.len() ==> s.take("{\"Move\":"@.len() as int)[2]
                == 'S');
            assert("{\"Position\":"@.len() <= s.len() ==> s.take(
                "{\"Position\":"@.len() as int,
            )[2] == 'S');
            lemma_after_word_of_concat("{\"Score\":"@, s1);
            lemma_read_score(score, close);
        },
    }
}

/// Reads a coordinate at the cursor.
fn scan_coordinate(text: &Vec<char>, at: usize) -> (r: Option<(u16, usize)>)
    requires
        at <= text.len(),
    ensures
        match read_coordinate(text@.skip(at as int)) {
            Some((value, rest)) => r matches Some((v, next)) && v == value && at <= next
                <= text.len() && text@.skip(next as int) == rest,
            None => r is None,
        },
{
    match read_number(text, at) {
        Some((value, next)) => if value <= 65535 {
            Some((value as u16, next))
        } else {
            None
        },
        None => None,
    }
}

/// Reads a score at the cursor.
fn scan_score(text: &Vec<char>, at: usize) -> (r: Option<(i32, usize)>)
    requires
        at <= text.len(),
    ensures
        match read_score(text@.skip(at as int)) {
            Some((value, rest)) => r matches Some((v, next)) && v == value && at <= next
                <= text.len() && text@.skip(next as int) == rest,
            None => r is None,
        },
{
    match skip_word(text, at, "-") {
        Some(unsigned) => match read_number(text, unsigned) {
            Some((value, next)) => if value <= 2147483648 {
                Some(((-(value as i64)) as i32, next))
            } else {
                None
            },
            None => None,
        },
        None => match read_number(text, at) {
            Some((value, next)) => if value <= 2147483647 {
                Some((value as i32, next))
            } else {
                None
            },
            None => None,
        },
    }
}

/// Reads a direction at the cursor.
fn scan_direction(text: &Vec<char>, at: usize) -> (r: Option<(Direction, usize)>)
    requires
        at <= text.len(),
    ensures
        match read_direction(text@.skip(at as int)) {
            Some((value, rest)) => r matches Some((v, next)) && v == value && at <= next
                <= text.len() && text@.skip(next as int) == rest,
            None => r is None,
        },
{
    if let Some(next) = skip_word(text, at, "\"Up\"") {
        Some((Direction::Up, next))
    } else if let Some(next) = skip_word(text, at, "\"Down\"") {
        Some((Direction::Down, next))
    } else if let Some(next) = skip_word(text, at, "\"Left\"") {
        Some((Direction::Left, next))
    } else if let Some(next) = skip_word(text, at, "\"Right\"") {
        Some((Direction::Right, next))
    } else {
        None
    }
}

/// Reads a position at the cursor.
fn scan_position(text: &Vec<char>, at: usize) -> (r: Option<(Position, usize)>)
    requires
        at <= text.len(),
    ensures
        match read_position(text@.skip(at as int)) {
            Some((value, rest)) => r matches Some((v, next)) && v == value && at <= next
                <= text.len() && text@.skip(next as int) == rest,
            None => r is None,
        },
{
    let Some(at_x) = skip_word(text, at, "{\"x\":") else {
        return None;
    };
    let Some((x, after_x)) = scan_coordinate(text, at_x) else {
        return None;
    };
    let Some(at_y) = skip_word(text, after_x, ",\"y\":") else {
        return None;
    };
    let Some((y, after_y)) = scan_coordinate(text, at_y) else {
        return None;
    };
    let Some(next) = skip_word(text, after_y, "}") else {
        return None;
    };
    Some((Position { x, y }, next))
}

/// Reads a message at the cursor.
fn scan_message(text: &Vec<char>, at: usize) -> (r: Option<(Message, usize)>)
    requires
        at <= text.len(),
    ensures
        match read_message(text@.skip(at as int)) {
            Some((value, rest)) => r matches Some((v, next)) && v == value && at <= next
                <= text.len() && text@.skip(next as int) == rest,
            None => r is None,
        },
{
    if let Some(next) = skip_word(text, at, "\"Disconnect\"") {
        return Some((Message::Disconnect, next));
    }
    if let Some(inner) = skip_word(text, at, "{\"Move\":") {
        let Some((direction, close)) = scan_direction(text, inner) else {
            return None;
        };
        let Some(next) = skip_word(text, close, "}") else {
            return None;
        };
        return Some((Message::Move(direction), next));
    }
    if let Some(inner) = skip_word(text, at, "{\"Position\":") {
        let Some((position, close)) = scan_position(text, inner) else {
            return None;
        };
        let Some(next) = skip_word(text, close, "}") else {
            return None;
        };
        return Some((Message::Position(position), next));
    }
    if let Some(inner) = skip_word(text, at, "{\"Score\":") {
        let Some((score, close)) = scan_score(text, inner) else {
            return None;
        };
        let Some(next) = skip_word(text, close, "}") else {
            return None;
        };
        return Some((Message::Score(score), next));
    }
    None
}

} // verus!
