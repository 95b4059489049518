//! The protocol parser: turns one line of the match engine's text
//! protocol into a structured message. Reading lines from the outside
//! world is the surrounding driver's job; everything here is a pure
//! function of the line's characters.

use vstd::prelude::*;

use crate::text::dec_val;
use crate::text::is_u64_text;
use crate::text::parse_u64;
use crate::text::spec_tokens;
use crate::text::split_char;
use crate::text::split_on;
use crate::text::text_eq;
use crate::text::tokenize;
use crate::types::Action;
use crate::types::Coordinate;
use crate::types::Message;
use crate::types::Move;
use crate::types::Setting;
use crate::types::Square;
use crate::types::Update;

verus! {

/// What went wrong while reading a protocol line.
#[derive(Clone, Copy, Debug, PartialEq, Eq, Structural)]
pub enum ParseFault {
    /// The line held no token at all.
    MissingToken,
    /// A keyword or cell token is not one the protocol knows.
    UnknownOption,
    /// A `settings` line with fewer than two tokens after the keyword.
    InvalidSettings,
    /// An `update` line with fewer than three tokens after the keyword.
    InvalidUpdate,
    /// An `action` line with fewer than two tokens after the keyword.
    InvalidAction,
    /// A numeral that is empty, holds a non-digit, or overflows a u64.
    InvalidNumber,
    /// A `kill` move with other than one coordinate.
    ExpectedOneCoordinate,
    /// A `birth` move with other than three coordinates.
    ExpectedThreeCoordinates,
    /// A coordinate without a second component.
    MissingCoordinate,
}

/// A parse error: the fault, and the line number it was found on.
#[derive(Clone, Copy, Debug, PartialEq, Eq, Structural)]
pub struct ParserError {
    pub fault: ParseFault,
    pub line: usize,
}

/// The error result carrying `fault` stamped with line number `ln`.
pub open spec fn perr<T>(fault: ParseFault, ln: usize) -> Result<T, ParserError> {
    Err(ParserError { fault, line: ln })
}

/// What parsing the two value tokens of a numeric setting must return:
/// the numeral's value under `make`, or `InvalidNumber`.
pub open spec fn num_setting_spec(
    val: Seq<char>,
    ln: usize,
    r: Result<Setting, ParserError>,
    make: spec_fn(u64) -> Setting,
) -> bool {
    if is_u64_text(val) {
        r == Ok::<Setting, ParserError>(make(dec_val(val) as u64))
    } else {
        r == perr::<Setting>(ParseFault::InvalidNumber, ln)
    }
}

/// What parsing the tokens after the `settings` keyword must return.
pub open spec fn settings_spec(
    toks: Seq<Seq<char>>,
    ln: usize,
    r: Result<Setting, ParserError>,
) -> bool {
    if toks.len() < 2 {
        r == perr::<Setting>(ParseFault::InvalidSettings, ln)
    } else {
        let typ = toks[0];
        let val = toks[1];
        if typ == "timebank"@ {
            num_setting_spec(val, ln, r, |v: u64| Setting::TimeBank(v))
        } else if typ == "time_per_move"@ {
            num_setting_spec(val, ln, r, |v: u64| Setting::TimePerMove(v))
        } else if typ == "player_names"@ {
            match r {
                Ok(Setting::PlayerNames(names)) => names.deep_view() == split_on(val, ','),
                _ => false,
            }
        } else if typ == "your_bot"@ {
            match r {
                Ok(Setting::YourBot(name)) => name@ == val,
                _ => false,
            }
        } else if typ == "your_botid"@ {
            num_setting_spec(val, ln, r, |v: u64| Setting::YourBotId(v))
        } else if typ == "field_width"@ {
            num_setting_spec(val, ln, r, |v: u64| Setting::FieldWidth(v))
        } else if typ == "field_height"@ {
            num_setting_spec(val, ln, r, |v: u64| Setting::FieldHeight(v))
        } else if typ == "max_rounds"@ {
            num_setting_spec(val, ln, r, |v: u64| Setting::MaxRounds(v))
        } else {
            r == perr::<Setting>(ParseFault::UnknownOption, ln)
        }
    }
}

/// The cell tokens of a `game field` value: `.`, `0` or `1`.
pub open spec fn square_char(c: char) -> bool {
    c == '.' || c == '0' || c == '1'
}

/// The cell a field token names.
pub open spec fn square_of(c: char) -> Square {
    if c == '.' {
        Square::Empty
    } else if c == '0' {
        Square::Player1
    } else {
        Square::Player2
    }
}

/// A well-formed field value: single-character cell tokens separated by
/// single commas, so cell tokens at even positions and commas at odd
/// ones, with odd total length.
pub open spec fn valid_field(s: Seq<char>) -> bool {
    s.len() % 2 == 1 && (forall|k: int| 0 <= k < s.len() && k % 2 == 0 ==> square_char(s[k]))
        && (forall|k: int| 0 <= k < s.len() && k % 2 == 1 ==> s[k] == ',')
}

/// The cells of a well-formed field value, in order.
pub open spec fn field_squares(s: Seq<char>) -> Seq<Square> {
    Seq::new(((s.len() + 1) / 2) as nat, |k: int| square_of(s[2 * k]))
}

/// What parsing the tokens after the `update` keyword must return.
pub open spec fn update_spec(
    toks: Seq<Seq<char>>,
    ln: usize,
    r: Result<Update, ParserError>,
) -> bool {
    if toks.len() < 3 {
        r == perr::<Update>(ParseFault::InvalidUpdate, ln)
    } else {
        let first = toks[0];
        let second = toks[1];
        let third = toks[2];
        if first == "game"@ && second == "round"@ {
            if is_u64_text(third) {
                r == Ok::<Update, ParserError>(Update::GameRound { round: dec_val(third) as u64 })
            } else {
                r == perr::<Update>(ParseFault::InvalidNumber, ln)
            }
        } else if first == "game"@ && second == "field"@ {
            if valid_field(third) {
                match r {
                    Ok(Update::GameField { field }) => field@ == field_squares(third),
                    _ => false,
                }
            } else {
                r == perr::<Update>(ParseFault::UnknownOption, ln)
            }
        } else if second == "living_cells"@ {
            if is_u64_text(third) {
                match r {
                    Ok(Update::LivingCells { player, cells }) => player@ == first && cells
                        == dec_val(third) as u64,
                    _ => false,
                }
            } else {
                r == perr::<Update>(ParseFault::InvalidNumber, ln)
            }
        } else if second == "move"@ {
            match r {
                Ok(Update::Move { player, mov }) => player@ == first && move_spec(
                    third,
                    ln,
                    Ok::<Move, ParserError>(mov),
                ),
                Err(e) => move_spec(third, ln, Err::<Move, ParserError>(e)),
                _ => false,
            }
        } else {
            r == perr::<Update>(ParseFault::UnknownOption, ln)
        }
    }
}

/// What parsing the tokens after the `action` keyword must return.
pub open spec fn action_spec(
    toks: Seq<Seq<char>>,
    ln: usize,
    r: Result<Action, ParserError>,
) -> bool {
    if toks.len() < 2 {
        r == perr::<Action>(ParseFault::InvalidAction, ln)
    } else if toks[0] != "move"@ {
        r == perr::<Action>(ParseFault::UnknownOption, ln)
    } else if is_u64_text(toks[1]) {
        r == Ok::<Action, ParserError>(Action::Move { time: dec_val(toks[1]) as u64 })
    } else {
        r == perr::<Action>(ParseFault::InvalidNumber, ln)
    }
}

/// Whether a move token piece names a coordinate: at least two
/// comma-separated components, the first two numerals a u64 can hold.
/// Components past the second are ignored.
pub open spec fn coord_ok(p: Seq<char>) -> bool {
    let ps = split_on(p, ',');
    ps.len() >= 2 && is_u64_text(ps[0]) && is_u64_text(ps[1])
}

/// The coordinate a well-formed piece names.
pub open spec fn coord_value(p: Seq<char>) -> Coordinate {
    let ps = split_on(p, ',');
    Coordinate { x: dec_val(ps[0]) as u64, y: dec_val(ps[1]) as u64 }
}

/// The fault a malformed coordinate piece is reported with.
pub open spec fn coord_fault(p: Seq<char>) -> ParseFault {
    let ps = split_on(p, ',');
    if ps.len() < 2 {
        ParseFault::MissingCoordinate
    } else {
        ParseFault::InvalidNumber
    }
}

/// What parsing one coordinate piece must return.
pub open spec fn coord_spec(p: Seq<char>, ln: usize, r: Result<Coordinate, ParserError>) -> bool {
    if coord_ok(p) {
        r == Ok::<Coordinate, ParserError>(coord_value(p))
    } else {
        r == perr::<Coordinate>(coord_fault(p), ln)
    }
}

/// What parsing a move token must return. The pieces between `_`
/// separators are the move kind and then its coordinates; the first
/// malformed coordinate is the reported error, before the kind is
/// looked at.
pub open spec fn move_spec(tok: Seq<char>, ln: usize, r: Result<Move, ParserError>) -> bool {
    let ps = split_on(tok, '_');
    if exists|k: int| 1 <= k < ps.len() && !coord_ok(ps[k]) {
        exists|k: int|
            1 <= k < ps.len() && !coord_ok(ps[k]) && (forall|m: int| 1 <= m < k ==> coord_ok(ps[m]))
                && r == perr::<Move>(coord_fault(ps[k]), ln)
    } else {
        let first = ps[0];
        let ncoords = ps.len() - 1;
        if first == "kill"@ {
            if ncoords == 1 {
                r == Ok::<Move, ParserError>(Move::Kill { loc: coord_value(ps[1]) })
            } else {
                r == perr::<Move>(ParseFault::ExpectedOneCoordinate, ln)
            }
        } else if first == "birth"@ {
            if ncoords == 3 {
                match r {
                    Ok(Move::Birth { birth, sacrifice }) => birth == coord_value(ps[1])
                        && sacrifice@[0] == coord_value(ps[2]) && sacrifice@[1] == coord_value(
                        ps[3],
                    ),
                    _ => false,
                }
            } else {
                r == perr::<Move>(ParseFault::ExpectedThreeCoordinates, ln)
            }
        } else if first == "pass"@ {
            r == Ok::<Move, ParserError>(Move::Pass)
        } else if first == "null"@ {
            r == Ok::<Move, ParserError>(Move::Null)
        } else {
            r == perr::<Move>(ParseFault::UnknownOption, ln)
        }
    }
}

/// What parsing a whole line must return, with `ln0` the count of lines
/// read before it: tokens are split on whitespace, the first token picks
/// the message kind, and errors are stamped with the new line count
/// (except a missing first token, stamped with the old one).
pub open spec fn line_spec(line: Seq<char>, ln0: usize, r: Result<Message, ParserError>) -> bool {
    let toks = spec_tokens(line);
    if toks.len() == 0 {
        r == perr::<Message>(ParseFault::MissingToken, ln0)
    } else {
        let rest = toks.skip(1);
        let ln = (ln0 + 1) as usize;
        if toks[0] == "settings"@ {
            match r {
                Ok(Message::Setting(s)) => settings_spec(rest, ln, Ok::<Setting, ParserError>(s)),
                Err(e) => settings_spec(rest, ln, Err::<Setting, ParserError>(e)),
                _ => false,
            }
        } else if toks[0] == "update"@ {
            match r {
                Ok(Message::Update(u)) => update_spec(rest, ln, Ok::<Update, ParserError>(u)),
                Err(e) => update_spec(rest, ln, Err::<Update, ParserError>(e)),
                _ => false,
            }
        } else if toks[0] == "action"@ {
            match r {
                Ok(Message::Action(a)) => action_spec(rest, ln, Ok::<Action, ParserError>(a)),
                Err(e) => action_spec(rest, ln, Err::<Action, ParserError>(e)),
                _ => false,
            }
        } else {
            r == perr::<Message>(ParseFault::UnknownOption, ln)
        }
    }
}

/// Reads the engine's protocol lines one at a time, counting them so
/// that errors can name the line they were found on.
pub struct Parser {
    line_no: usize,
}

impl Parser {
    /// How many lines have been read.
    pub closed spec fn spec_line(self) -> usize {
        self.line_no
    }

    /// A parser that has read nothing yet.
    pub fn new() -> (p: Parser)
        ensures
            p.spec_line() == 0,
    {
        Parser { line_no: 0 }
    }

    /// How many lines have been read, for callers that must stay below
    /// the counter's limit.
    pub fn line_count(&self) -> (n: usize)
        ensures
            n == self.spec_line(),
    {
        self.line_no
    }

    /// Parses one line of the protocol and counts it.
    pub fn parse_line(&mut self, line: &str) -> (r: Result<Message, ParserError>)
        requires
            old(self).spec_line() < usize::MAX,
        ensures
            final(self).spec_line() == old(self).spec_line() + 1,
            line_spec(line@, old(self).spec_line(), r),
    {
        let toks = tokenize(line);
        if toks.len() == 0 {
            let e = ParserError { fault: ParseFault::MissingToken, line: self.line_no };
            self.line_no = self.line_no + 1;
            return Err(e);
        }
        self.line_no = self.line_no + 1;
        let mut rest: Vec<String> = Vec::new();
        let mut k: usize = 1;
        proof {
            assert(rest.deep_view() =~~= toks.deep_view().subrange(1, 1));
        }
        while k < toks.len()
            invariant
                1 <= k <= toks@.len(),
                toks.deep_view() == spec_tokens(line@),
                rest.deep_view() == toks.deep_view().subrange(1, k as int),
            decreases toks@.len() - k,
        {
            let ghost pre = rest.deep_view();
            let t = &toks[k];
            rest.push(t.clone());
            proof {
                assert(rest@.last()@ == toks@[k as int]@);
                assert(rest.deep_view() =~~= pre.push(toks.deep_view()[k as int]));
                assert(pre.push(toks.deep_view()[k as int]) =~~= toks.deep_view().subrange(
                    1,
                    k as int + 1,
                ));
            }
            k += 1;
        }
        proof {
            assert(rest.deep_view() =~~= spec_tokens(line@).skip(1));
        }
        let first = &toks[0];
        if text_eq(first.as_str(), "settings") {
            match self.parse_settings(&rest) {
                Ok(s) => Ok(Message::Setting(s)),
                Err(e) => Err(e),
            }
        } else if text_eq(first.as_str(), "update") {
            match self.parse_update(&rest) {
                Ok(u) => Ok(Message::Update(u)),
                Err(e) => Err(e),
            }
        } else if text_eq(first.as_str(), "action") {
            match self.parse_action(&rest) {
                Ok(a) => Ok(Message::Action(a)),
                Err(e) => Err(e),
            }
        } else {
            Err(ParserError { fault: ParseFault::UnknownOption, line: self.line_no })
        }
    }

    /// Parses the tokens after the `settings` keyword.
    pub fn parse_settings(&self, tokens: &Vec<String>) -> (r: Result<Setting, ParserError>)
        ensures
            settings_spec(tokens.deep_view(), self.spec_line(), r),
    {
        if tokens.len() < 2 {
            return Err(ParserError { fault: ParseFault::InvalidSettings, line: self.line_no });
        }
        let typ = &tokens[0];
        let val = &tokens[1];
        proof {
            assert(typ@ == tokens.deep_view()[0]);
            assert(val@ == tokens.deep_view()[1]);
        }
        if text_eq(typ.as_str(), "timebank") {
            match parse_u64(val.as_str()) {
                Some(v) => Ok(Setting::TimeBank(v)),
                None => Err(ParserError { fault: ParseFault::InvalidNumber, line: self.line_no }),
            }
        } else if text_eq(typ.as_str(), "time_per_move") {
            match parse_u64(val.as_str()) {
                Some(v) => Ok(Setting::TimePerMove(v)),
                None => Err(ParserError { fault: ParseFault::InvalidNumber, line: self.line_no }),
            }
        } else if text_eq(typ.as_str(), "player_names") {
            Ok(Setting::PlayerNames(split_char(val.as_str(), ',')))
        } else if text_eq(typ.as_str(), "your_bot") {
            Ok(Setting::YourBot(val.clone()))
        } else if text_eq(typ.as_str(), "your_botid") {
            match parse_u64(val.as_str()) {
                Some(v) => Ok(Setting::YourBotId(v)),
                None => Err(ParserError { fault: ParseFault::InvalidNumber, line: self.line_no }),
            }
        } else if text_eq(typ.as_str(), "field_width") {
            match parse_u64(val.as_str()) {
                Some(v) => Ok(Setting::FieldWidth(v)),
                None => Err(ParserError { fault: ParseFault::InvalidNumber, line: self.line_no }),
            }
        } else if text_eq(typ.as_str(), "field_height") {
            match parse_u64(val.as_str()) {
                Some(v) => Ok(Setting::FieldHeight(v)),
                None => Err(ParserError { fault: ParseFault::InvalidNumber, line: self.line_no }),
            }
        } else if text_eq(typ.as_str(), "max_rounds") {
            match parse_u64(val.as_str()) {
                Some(v) => Ok(Setting::MaxRounds(v)),
                None => Err(ParserError { fault: ParseFault::InvalidNumber, line: self.line_no }),
            }
        } else {
            Err(ParserError { fault: ParseFault::UnknownOption, line: self.line_no })
        }
    }

    /// Parses the tokens after the `update` keyword.
    pub fn parse_update(&self, tokens: &Vec<String>) -> (r: Result<Update, ParserError>)
        ensures
            update_spec(tokens.deep_view(), self.spec_line(), r),
    {
        if tokens.len() < 3 {
            return Err(ParserError { fault: ParseFault::InvalidUpdate, line: self.line_no });
        }
        let first = &tokens[0];
        let second = &tokens[1];
        let third = &tokens[2];
        proof {
            assert(first@ == tokens.deep_view()[0]);
            assert(second@ == tokens.deep_view()[1]);
            assert(third@ == tokens.deep_view()[2]);
        }
        if text_eq(first.as_str(), "game") && text_eq(second.as_str(), "round") {
            match parse_u64(third.as_str()) {
                Some(v) => Ok(Update::GameRound { round: v }),
                None => Err(ParserError { fault: ParseFault::InvalidNumber, line: self.line_no }),
            }
        } else if text_eq(first.as_str(), "game") && text_eq(second.as_str(), "field") {
            match self.parse_field(third.as_str()) {
                Ok(field) => Ok(Update::GameField { field }),
                Err(e) => Err(e),
            }
        } else if text_eq(second.as_str(), "living_cells") {
            match parse_u64(third.as_str()) {
                Some(v) => Ok(Update::LivingCells { player: first.clone(), cells: v }),
                None => Err(ParserError { fault: ParseFault::InvalidNumber, line: self.line_no }),
            }
        } else if text_eq(second.as_str(), "move") {
            match self.parse_move(third.as_str()) {
                Ok(mov) => Ok(Update::Move { player: first.clone(), mov }),
                Err(e) => Err(e),
            }
        } else {
            Err(ParserError { fault: ParseFault::UnknownOption, line: self.line_no })
        }
    }

    /// Parses the tokens after the `action` keyword.
    pub fn parse_action(&self, tokens: &Vec<String>) -> (r: Result<Action, ParserError>)
        ensures
            action_spec(tokens.deep_view(), self.spec_line(), r),
    {
        if tokens.len() < 2 {
            return Err(ParserError { fault: ParseFault::InvalidAction, line: self.line_no });
        }
        let typ = &tokens[0];
        let val = &tokens[1];
        proof {
            assert(typ@ == tokens.deep_view()[0]);
            assert(val@ == tokens.deep_view()[1]);
        }
        if !text_eq(typ.as_str(), "move") {
            Err(ParserError { fault: ParseFault::UnknownOption, line: self.line_no })
        } else {
            match parse_u64(val.as_str()) {
                Some(v) => Ok(Action::Move { time: v }),
                None => Err(ParserError { fault: ParseFault::InvalidNumber, line: self.line_no }),
            }
        }
    }

    /// Parses a `game field` value: cell tokens separated by commas.
    fn parse_field(&self, token: &str) -> (r: Result<Vec<Square>, ParserError>)
        ensures
            match r {
                Ok(v) => valid_field(token@) && v@ == field_squares(token@),
                Err(e) => !valid_field(token@) && e == ParserError {
                    fault: ParseFault::UnknownOption,
                    line: self.spec_line(),
                },
            },
    {
        let n = token.unicode_len();
        if n % 2 == 0 {
            return Err(ParserError { fault: ParseFault::UnknownOption, line: self.line_no });
        }
        let m = n / 2 + 1;
        let mut out: Vec<Square> = Vec::new();
        let mut ci: usize = 0;
        while ci < m
            invariant
                ci <= m,
                n == token@.len(),
                n % 2 == 1,
                m == n as int / 2 + 1,
                out@.len() == ci,
                forall|k: int|
                    0 <= k < ci ==> square_char(#[trigger] token@[2 * k]) && out@[k] == square_of(
                        token@[2 * k],
                    ),
                forall|k: int| 1 <= k < ci ==> (#[trigger] token@[2 * k - 1]) == ',',
            decreases m - ci,
        {
            if ci > 0 {
                if token.get_char(2 * ci - 1) != ',' {
                    proof {
                        assert(!valid_field(token@)) by {
                            if valid_field(token@) {
                                assert(token@[2 * (ci as int) - 1] == ',');
                            }
                        }
                    }
                    return Err(
                        ParserError { fault: ParseFault::UnknownOption, line: self.line_no },
                    );
                }
            }
            let c = token.get_char(2 * ci);
            let sq = if c == '.' {
                Square::Empty
            } else if c == '0' {
                Square::Player1
            } else if c == '1' {
                Square::Player2
            } else {
                proof {
                    assert(!valid_field(token@)) by {
                        if valid_field(token@) {
                            assert(square_char(token@[2 * (ci as int)]));
                        }
                    }
                }
                return Err(ParserError { fault: ParseFault::UnknownOption, line: self.line_no });
            };
            out.push(sq);
            ci += 1;
        }
        proof {
            assert forall|k: int| 0 <= k < n && k % 2 == 0 implies square_char(token@[k]) by {
                let q = k / 2;
                assert(2 * q == k);
            }
            assert forall|k: int| 0 <= k < n && k % 2 == 1 implies token@[k] == ',' by {
                let q = (k + 1) / 2;
                assert(2 * q - 1 == k);
            }
            assert(out@ =~= field_squares(token@));
        }
        Ok(out)
    }

    /// Parses one coordinate piece of a move token.
    pub fn parse_coordinate(&self, token: &str) -> (r: Result<Coordinate, ParserError>)
        ensures
            coord_spec(token@, self.spec_line(), r),
    {
        let pieces = split_char(token, ',');
        if pieces.len() < 2 {
            return Err(ParserError { fault: ParseFault::MissingCoordinate, line: self.line_no });
        }
        let xs = &pieces[0];
        let ys = &pieces[1];
        proof {
            assert(xs@ == pieces.deep_view()[0]);
            assert(ys@ == pieces.deep_view()[1]);
        }
        let x = match parse_u64(xs.as_str()) {
            Some(v) => v,
            None => {
                return Err(ParserError { fault: ParseFault::InvalidNumber, line: self.line_no });
            },
        };
        let y = match parse_u64(ys.as_str()) {
            Some(v) => v,
            None => {
                return Err(ParserError { fault: ParseFault::InvalidNumber, line: self.line_no });
            },
        };
        Ok(Coordinate { x, y })
    }

    /// Parses a move token: the move kind, then its coordinates,
    /// separated by underscores.
    pub fn parse_move(&self, move_token: &str) -> (r: Result<Move, ParserError>)
        ensures
            move_spec(move_token@, self.spec_line(), r),
    {
        let pieces = split_char(move_token, '_');
        let ghost ps = split_on(move_token@, '_');
        proof {
            crate::text::lemma_split_on_len(move_token@, '_');
        }
        let mut coords: Vec<Coordinate> = Vec::new();
        let mut k: usize = 1;
        while k < pieces.len()
            invariant
                1 <= k <= pieces@.len(),
                pieces.deep_view() == ps,
                ps == split_on(move_token@, '_'),
                coords@.len() == k - 1,
                forall|m: int| 1 <= m < k ==> coord_ok(ps[m]),
                forall|m: int| 1 <= m < k ==> coords@[m - 1] == coord_value(ps[m]),
            decreases pieces@.len() - k,
        {
            let p = &pieces[k];
            proof {
                assert(p@ == ps[k as int]);
            }
            match self.parse_coordinate(p.as_str()) {
                Ok(cv) => {
                    coords.push(cv);
                },
                Err(e) => {
                    proof {
                        let ghost kk = k as int;
                        assert(1 <= kk < ps.len() && !coord_ok(ps[kk]) && (forall|m: int|
                            1 <= m < kk ==> coord_ok(ps[m])) && Err::<Move, ParserError>(e)
                            == perr::<Move>(coord_fault(ps[kk]), self.spec_line()));
                    }
                    return Err(e);
                },
            }
            k += 1;
        }
        let first = &pieces[0];
        proof {
            assert(first@ == ps[0]);
        }
        if text_eq(first.as_str(), "kill") {
            if coords.len() != 1 {
                return Err(
                    ParserError { fault: ParseFault::ExpectedOneCoordinate, line: self.line_no },
                );
            }
            Ok(Move::Kill { loc: coords[0] })
        } else if text_eq(first.as_str(), "birth") {
            if coords.len() != 3 {
                return Err(
                    ParserError { fault: ParseFault::ExpectedThreeCoordinates, line: self.line_no },
                );
            }
            let sacrifice = [coords[1], coords[2]];
            proof {
                assert(sacrifice@[0] == coords@[1]);
                assert(sacrifice@[1] == coords@[2]);
            }
            Ok(Move::Birth { birth: coords[0], sacrifice })
        } else if text_eq(first.as_str(), "pass") {
            Ok(Move::Pass)
        } else if text_eq(first.as_str(), "null") {
            Ok(Move::Null)
        } else {
            Err(ParserError { fault: ParseFault::UnknownOption, line: self.line_no })
        }
    }
}

} // verus!
