//! Schema-driven record deserialization: for each record type, parsing one
//! JSON object literal bound to its compile-time field schema. One
//! presence slot per field starts unset and is filled when its key is met
//! (a repeated key keeping the later value); an unknown key is
//! `UnknownProperty` at that key, and a field still unset at the closing
//! brace is `MissingProperty`, reported at the opening brace, the fields
//! checked in declaration order. Each field's sub-parse reuses the generic
//! dispatch, so a record field that is itself a record recurses.

use vstd::prelude::*;
use vstd::pervasive::arbitrary;
use crate::chars::{str_eq_chars, string_of_chars};
use crate::parse_impl::primitives::{spec_parse_bool, spec_parse_number};
use crate::parse_impl::strings::spec_parse_string;
use crate::parser::{
    parse_measure, spec_advance, spec_check, spec_consume, spec_make_err_prev, Parse, Parser,
    ParserErr, ParserErrKind, SpecParser, SpecParserErr, SpecParserErrKind,
};
use crate::token::{SpecToken, SpecTokenKind, TokenKind};

verus! {

/// A person record: the demonstration schema `{name: string, age: u32}`.
#[derive(Debug, PartialEq)]
pub struct Person {
    pub name: String,
    pub age: u32,
}

/// The mathematical model of a person record.
pub struct SpecPerson {
    pub name: Seq<char>,
    pub age: u32,
}

impl DeepView for Person {
    type V = SpecPerson;

    open spec fn deep_view(&self) -> SpecPerson {
        SpecPerson { name: self.name@, age: self.age }
    }
}

/// The field loop of a person object: `lcurly` anchors missing-field
/// errors, the options are the presence slots in declaration order.
pub open spec fn spec_parse_person_fields(
    st: SpecParser,
    lcurly: SpecToken,
    name: Option<Seq<char>>,
    age: Option<u32>,
    had_comma: bool,
) -> Result<(SpecPerson, SpecParser), SpecParserErr>
    decreases parse_measure(st),
{
    match spec_check(st, SpecTokenKind::RCurlyBracket) {
        Err(e) => Err(e),
        Ok(true) => if had_comma {
            Err(spec_make_err_prev(st, SpecParserErrKind::UnexpectedToken))
        } else {
            match spec_consume(st, SpecTokenKind::RCurlyBracket) {
                (Err(e), _) => Err(e),
                (Ok(_), st2) => if name is None {
                    Err(
                        SpecParserErr {
                            kind: SpecParserErrKind::MissingProperty(seq!['n', 'a', 'm', 'e']),
                            line: lcurly.line,
                            lexeme: lcurly.lexeme,
                        },
                    )
                } else if age is None {
                    Err(
                        SpecParserErr {
                            kind: SpecParserErrKind::MissingProperty(seq!['a', 'g', 'e']),
                            line: lcurly.line,
                            lexeme: lcurly.lexeme,
                        },
                    )
                } else {
                    Ok((SpecPerson { name: name->0, age: age->0 }, st2))
                },
            }
        },
        Ok(false) => match spec_advance(st) {
            (Err(e), _) => Err(e),
            (Ok(key), st1) => match key.kind {
                SpecTokenKind::Str(k) => match spec_consume(st1, SpecTokenKind::Colon) {
                    (Err(e), _) => Err(e),
                    (Ok(_), st2) => if !(0 <= parse_measure(st2) <= parse_measure(st)) {
                        arbitrary()
                    } else {
                        if k == seq!['n', 'a', 'm', 'e'] {
                            match spec_parse_string(st2) {
                                Err(e) => Err(e),
                                Ok((s, st3)) => spec_parse_person_after_field(
                                    st,
                                    st3,
                                    lcurly,
                                    Some(s),
                                    age,
                                ),
                            }
                        } else if k == seq!['a', 'g', 'e'] {
                            match spec_parse_number::<u32>(st2) {
                                Err(e) => Err(e),
                                Ok((v, st3)) => spec_parse_person_after_field(
                                    st,
                                    st3,
                                    lcurly,
                                    name,
                                    Some(v),
                                ),
                            }
                        } else {
                            Err(
                                SpecParserErr {
                                    kind: SpecParserErrKind::UnknownProperty,
                                    line: key.line,
                                    lexeme: key.lexeme,
                                },
                            )
                        }
                    },
                },
                _ => Err(
                    SpecParserErr {
                        kind: SpecParserErrKind::UnexpectedToken,
                        line: key.line,
                        lexeme: key.lexeme,
                    },
                ),
            },
        },
    }
}

/// After one field of a person was filled: continue behind a comma or
/// close at once.
pub open spec fn spec_parse_person_after_field(
    st: SpecParser,
    st3: SpecParser,
    lcurly: SpecToken,
    name: Option<Seq<char>>,
    age: Option<u32>,
) -> Result<(SpecPerson, SpecParser), SpecParserErr>
    decreases parse_measure(st), parse_measure(st3),
{
    match spec_check(st3, SpecTokenKind::Comma) {
        Err(e) => Err(e),
        Ok(true) => match spec_advance(st3) {
            (Err(e), _) => Err(e),
            (Ok(_), st4) => if 0 <= parse_measure(st4) < parse_measure(st) {
                spec_parse_person_fields(st4, lcurly, name, age, true)
            } else {
                arbitrary()
            },
        },
        Ok(false) => match spec_consume(st3, SpecTokenKind::RCurlyBracket) {
            (Err(e), _) => Err(e),
            (Ok(_), st4) => if name is None {
                Err(
                    SpecParserErr {
                        kind: SpecParserErrKind::MissingProperty(seq!['n', 'a', 'm', 'e']),
                        line: lcurly.line,
                        lexeme: lcurly.lexeme,
                    },
                )
            } else if age is None {
                Err(
                    SpecParserErr {
                        kind: SpecParserErrKind::MissingProperty(seq!['a', 'g', 'e']),
                        line: lcurly.line,
                        lexeme: lcurly.lexeme,
                    },
                )
            } else {
                Ok((SpecPerson { name: name->0, age: age->0 }, st4))
            },
        },
    }
}

/// A person object: `{`, then the field loop.
pub open spec fn spec_parse_person(st: SpecParser) -> Result<
    (SpecPerson, SpecParser),
    SpecParserErr,
> {
    match spec_consume(st, SpecTokenKind::LCurlyBracket) {
        (Err(e), _) => Err(e),
        (Ok(lcurly), st1) => if 0 <= parse_measure(st1) < parse_measure(st) {
            spec_parse_person_fields(st1, lcurly, None, None, false)
        } else {
            arbitrary()
        },
    }
}

impl Parse for Person {
    open spec fn spec_parse(st: SpecParser) -> Result<(SpecPerson, SpecParser), SpecParserErr> {
        spec_parse_person(st)
    }

    fn parse(p: &mut Parser) -> (r: Result<Self, ParserErr>) {
        let ghost st0 = p@;
        let lcurly = match p.consume(TokenKind::LCurlyBracket) {
            Ok(t) => t,
            Err(e) => {
                return Err(e);
            },
        };
        let kw_name = ['n', 'a', 'm', 'e'];
        let kw_age = ['a', 'g', 'e'];
        proof {
            assert(kw_name@ =~= seq!['n', 'a', 'm', 'e']);
            assert(kw_age@ =~= seq!['a', 'g', 'e']);
        }
        let mut name: Option<String> = None;
        let mut age: Option<u32> = None;
        let mut had_comma = false;
        #[verifier::loop_isolation(false)]
        loop
            invariant
                p.wf(),
                p@.scanner.source == st0.scanner.source,
                parse_measure(p@) < parse_measure(st0),
                Self::spec_parse(st0) == spec_parse_person_fields(
                    p@,
                    lcurly@,
                    match name {
                        Some(s) => Some(s@),
                        None => None,
                    },
                    age,
                    had_comma,
                ),
                had_comma ==> p@.prev is Some,
            decreases parse_measure(p@),
        {
            let at_end = match p.check(TokenKind::RCurlyBracket) {
                Ok(b) => b,
                Err(e) => {
                    return Err(e);
                },
            };
            if at_end {
                if had_comma {
                    return Err(p.make_err_prev(ParserErrKind::UnexpectedToken));
                }
                match p.consume(TokenKind::RCurlyBracket) {
                    Ok(_) => {},
                    Err(e) => {
                        return Err(e);
                    },
                };
                let got_name = match name {
                    Some(s) => s,
                    None => {
                        return Err(
                            p.make_err_from_token(
                                ParserErrKind::MissingProperty(string_of_chars(&kw_name)),
                                &lcurly,
                            ),
                        );
                    },
                };
                let got_age = match age {
                    Some(v) => v,
                    None => {
                        return Err(
                            p.make_err_from_token(
                                ParserErrKind::MissingProperty(string_of_chars(&kw_age)),
                                &lcurly,
                            ),
                        );
                    },
                };
                return Ok(Person { name: got_name, age: got_age });
            }
            let key = match p.advance() {
                Ok(t) => t,
                Err(e) => {
                    return Err(e);
                },
            };
            match key.kind {
                TokenKind::String(ref k) => {
                    match p.consume(TokenKind::Colon) {
                        Ok(_) => {},
                        Err(e) => {
                            return Err(e);
                        },
                    };
                    if str_eq_chars(k.as_str(), &kw_name) {
                        let v = match String::parse(p) {
                            Ok(v) => v,
                            Err(e) => {
                                return Err(e);
                            },
                        };
                        name = Some(v);
                    } else if str_eq_chars(k.as_str(), &kw_age) {
                        let v = match u32::parse(p) {
                            Ok(v) => v,
                            Err(e) => {
                                return Err(e);
                            },
                        };
                        age = Some(v);
                    } else {
                        return Err(p.make_err_from_token(ParserErrKind::UnknownProperty, &key));
                    }
                    let more = match p.check(TokenKind::Comma) {
                        Ok(b) => b,
                        Err(e) => {
                            return Err(e);
                        },
                    };
                    if more {
                        match p.advance() {
                            Ok(_) => {},
                            Err(e) => {
                                return Err(e);
                            },
                        };
                        had_comma = true;
                    } else {
                        match p.consume(TokenKind::RCurlyBracket) {
                            Ok(_) => {},
                            Err(e) => {
                                return Err(e);
                            },
                        };
                        let got_name = match name {
                            Some(s) => s,
                            None => {
                                return Err(
                                    p.make_err_from_token(
                                        ParserErrKind::MissingProperty(string_of_chars(&kw_name)),
                                        &lcurly,
                                    ),
                                );
                            },
                        };
                        let got_age = match age {
                            Some(v) => v,
                            None => {
                                return Err(
                                    p.make_err_from_token(
                                        ParserErrKind::MissingProperty(string_of_chars(&kw_age)),
                                        &lcurly,
                                    ),
                                );
                            },
                        };
                        return Ok(Person { name: got_name, age: got_age });
                    }
                },
                _ => {
                    return Err(p.make_err_prev(ParserErrKind::UnexpectedToken));
                },
            }
        }
    }
}

} // verus!


verus! {

/// A notifications record of the example schema.
#[derive(Debug, PartialEq)]
pub struct Notifications {
    pub email: bool,
    pub sms: bool,
}

/// The mathematical model of a notifications record.
pub struct SpecNotifications {
    pub email: bool,
    pub sms: bool,
}

impl DeepView for Notifications {
    type V = SpecNotifications;

    open spec fn deep_view(&self) -> SpecNotifications {
        SpecNotifications { email: self.email, sms: self.sms }
    }
}

/// The field loop of a notifications object.
pub open spec fn spec_parse_notifications_fields(
    st: SpecParser,
    lcurly: SpecToken,
    email: Option<bool>, sms: Option<bool>,
    had_comma: bool,
) -> Result<(SpecNotifications, SpecParser), SpecParserErr>
    decreases parse_measure(st),
{
    match spec_check(st, SpecTokenKind::RCurlyBracket) {
        Err(e) => Err(e),
        Ok(true) => if had_comma {
            Err(spec_make_err_prev(st, SpecParserErrKind::UnexpectedToken))
        } else {
            match spec_consume(st, SpecTokenKind::RCurlyBracket) {
                (Err(e), _) => Err(e),
                (Ok(_), st2) => if email is None {
                    Err(
                        SpecParserErr {
                            kind: SpecParserErrKind::MissingProperty(seq!['e', 'm', 'a', 'i', 'l']),
                            line: lcurly.line,
                            lexeme: lcurly.lexeme,
                        },
                    )
                } else if sms is None {
                    Err(
                        SpecParserErr {
                            kind: SpecParserErrKind::MissingProperty(seq!['s', 'm', 's']),
                            line: lcurly.line,
                            lexeme: lcurly.lexeme,
                        },
                    )
                } else {
                    Ok((SpecNotifications { email: email->0, sms: sms->0 }, st2))
                },
            }
        },
        Ok(false) => match spec_advance(st) {
            (Err(e), _) => Err(e),
            (Ok(key), st1) => match key.kind {
                SpecTokenKind::Str(k) => match spec_consume(st1, SpecTokenKind::Colon) {
                    (Err(e), _) => Err(e),
                    (Ok(_), st2) => if !(0 <= parse_measure(st2) <= parse_measure(st)) {
                        arbitrary()
                    } else {
                        if k == seq!['e', 'm', 'a', 'i', 'l'] {
                            match spec_parse_bool(st2) {
                                Err(e) => Err(e),
                                Ok((v, st3)) => spec_parse_notifications_after_field(st, st3, lcurly, Some(v), sms),
                            }
                        } else if k == seq!['s', 'm', 's'] {
                            match spec_parse_bool(st2) {
                                Err(e) => Err(e),
                                Ok((v, st3)) => spec_parse_notifications_after_field(st, st3, lcurly, email, Some(v)),
                            }
                        } else {
                            Err(
                                SpecParserErr {
                                    kind: SpecParserErrKind::UnknownProperty,
                                    line: key.line,
                                    lexeme: key.lexeme,
                                },
                            )
                        }
                    },
                },
                _ => Err(
                    SpecParserErr {
                        kind: SpecParserErrKind::UnexpectedToken,
                        line: key.line,
                        lexeme: key.lexeme,
                    },
                ),
            },
        },
    }
}

/// After one field of a notifications was filled: continue behind a comma or close.
pub open spec fn spec_parse_notifications_after_field(
    st: SpecParser,
    st3: SpecParser,
    lcurly: SpecToken,
    email: Option<bool>, sms: Option<bool>,
) -> Result<(SpecNotifications, SpecParser), SpecParserErr>
    decreases parse_measure(st), parse_measure(st3),
{
    match spec_check(st3, SpecTokenKind::Comma) {
        Err(e) => Err(e),
        Ok(true) => match spec_advance(st3) {
            (Err(e), _) => Err(e),
            (Ok(_), st4) => if 0 <= parse_measure(st4) < parse_measure(st) {
                spec_parse_notifications_fields(st4, lcurly, email, sms, true)
            } else {
                arbitrary()
            },
        },
        Ok(false) => match spec_consume(st3, SpecTokenKind::RCurlyBracket) {
            (Err(e), _) => Err(e),
            (Ok(_), st4) => if email is None {
                    Err(
                        SpecParserErr {
                            kind: SpecParserErrKind::MissingProperty(seq!['e', 'm', 'a', 'i', 'l']),
                            line: lcurly.line,
                            lexeme: lcurly.lexeme,
                        },
                    )
                } else if sms is None {
                    Err(
                        SpecParserErr {
                            kind: SpecParserErrKind::MissingProperty(seq!['s', 'm', 's']),
                            line: lcurly.line,
                            lexeme: lcurly.lexeme,
                        },
                    )
                } else {
                Ok((SpecNotifications { email: email->0, sms: sms->0 }, st4))
            },
        },
    }
}

/// A notifications object: `{`, then the field loop.
pub open spec fn spec_parse_notifications(st: SpecParser) -> Result<(SpecNotifications, SpecParser), SpecParserErr> {
    match spec_consume(st, SpecTokenKind::LCurlyBracket) {
        (Err(e), _) => Err(e),
        (Ok(lcurly), st1) => if 0 <= parse_measure(st1) < parse_measure(st) {
            spec_parse_notifications_fields(st1, lcurly, None, None, false)
        } else {
            arbitrary()
        },
    }
}

impl Parse for Notifications {
    open spec fn spec_parse(st: SpecParser) -> Result<(SpecNotifications, SpecParser), SpecParserErr> {
        spec_parse_notifications(st)
    }

    fn parse(p: &mut Parser) -> (r: Result<Self, ParserErr>) {
        let ghost st0 = p@;
        let lcurly = match p.consume(TokenKind::LCurlyBracket) {
            Ok(t) => t,
            Err(e) => {
                return Err(e);
            },
        };
        let kw_email = ['e', 'm', 'a', 'i', 'l'];
        let kw_sms = ['s', 'm', 's'];
        proof {
            assert(kw_email@ =~= seq!['e', 'm', 'a', 'i', 'l']);
            assert(kw_sms@ =~= seq!['s', 'm', 's']);
        }
        let mut email: Option<bool> = None;
        let mut sms: Option<bool> = None;
        let mut had_comma = false;
        #[verifier::loop_isolation(false)]
        loop
            invariant
                p.wf(),
                p@.scanner.source == st0.scanner.source,
                parse_measure(p@) < parse_measure(st0),
                Self::spec_parse(st0) == spec_parse_notifications_fields(
                    p@,
                    lcurly@,
                    email,
                    sms,
                    had_comma,
                ),
                had_comma ==> p@.prev is Some,
            decreases parse_measure(p@),
        {
            let at_end = match p.check(TokenKind::RCurlyBracket) {
                Ok(b) => b,
                Err(e) => {
                    return Err(e);
                },
            };
            if at_end {
                if had_comma {
                    return Err(p.make_err_prev(ParserErrKind::UnexpectedToken));
                }
                match p.consume(TokenKind::RCurlyBracket) {
                    Ok(_) => {},
                    Err(e) => {
                        return Err(e);
                    },
                };
                let got_email = match email {
                    Some(v) => v,
                    None => {
                        return Err(
                            p.make_err_from_token(
                                ParserErrKind::MissingProperty(string_of_chars(&kw_email)),
                                &lcurly,
                            ),
                        );
                    },
                };
                let got_sms = match sms {
                    Some(v) => v,
                    None => {
                        return Err(
                            p.make_err_from_token(
                                ParserErrKind::MissingProperty(string_of_chars(&kw_sms)),
                                &lcurly,
                            ),
                        );
                    },
                };
                return Ok(Notifications { email: got_email, sms: got_sms });
            }
            let key = match p.advance() {
                Ok(t) => t,
                Err(e) => {
                    return Err(e);
                },
            };
            match key.kind {
                TokenKind::String(ref k) => {
                    match p.consume(TokenKind::Colon) {
                        Ok(_) => {},
                        Err(e) => {
                            return Err(e);
                        },
                    };
                    if str_eq_chars(k.as_str(), &kw_email) {
                        let v = match bool::parse(p) {
                            Ok(v) => v,
                            Err(e) => {
                                return Err(e);
                            },
                        };
                        email = Some(v);
                    } else if str_eq_chars(k.as_str(), &kw_sms) {
                        let v = match bool::parse(p) {
                            Ok(v) => v,
                            Err(e) => {
                                return Err(e);
                            },
                        };
                        sms = Some(v);
                    } else {
                        return Err(p.make_err_from_token(ParserErrKind::UnknownProperty, &key));
                    }
                    let more = match p.check(TokenKind::Comma) {
                        Ok(b) => b,
                        Err(e) => {
                            return Err(e);
                        },
                    };
                    if more {
                        match p.advance() {
                            Ok(_) => {},
                            Err(e) => {
                                return Err(e);
                            },
                        };
                        had_comma = true;
                    } else {
                        match p.consume(TokenKind::RCurlyBracket) {
                            Ok(_) => {},
                            Err(e) => {
                                return Err(e);
                            },
                        };
                        let got_email = match email {
                            Some(v) => v,
                            None => {
                                return Err(
                                    p.make_err_from_token(
                                        ParserErrKind::MissingProperty(string_of_chars(&kw_email)),
                                        &lcurly,
                                    ),
                                );
                            },
                        };
                        let got_sms = match sms {
                            Some(v) => v,
                            None => {
                                return Err(
                                    p.make_err_from_token(
                                        ParserErrKind::MissingProperty(string_of_chars(&kw_sms)),
                                        &lcurly,
                                    ),
                                );
                            },
                        };
                        return Ok(Notifications { email: got_email, sms: got_sms });
                    }
                },
                _ => {
                    return Err(p.make_err_prev(ParserErrKind::UnexpectedToken));
                },
            }
        }
    }
}


/// A address record of the example schema.
#[derive(Debug, PartialEq)]
pub struct Address {
    pub street: String,
    pub city: String,
    pub zipcode: String,
    pub country: String,
}

/// The mathematical model of a address record.
pub struct SpecAddress {
    pub street: Seq<char>,
    pub city: Seq<char>,
    pub zipcode: Seq<char>,
    pub country: Seq<char>,
}

impl DeepView for Address {
    type V = SpecAddress;

    open spec fn deep_view(&self) -> SpecAddress {
        SpecAddress { street: self.street@, city: self.city@, zipcode: self.zipcode@, country: self.country@ }
    }
}

/// The field loop of a address object.
pub open spec fn spec_parse_address_fields(
    st: SpecParser,
    lcurly: SpecToken,
    street: Option<Seq<char>>, city: Option<Seq<char>>, zipcode: Option<Seq<char>>, country: Option<Seq<char>>,
    had_comma: bool,
) -> Result<(SpecAddress, SpecParser), SpecParserErr>
    decreases parse_measure(st),
{
    match spec_check(st, SpecTokenKind::RCurlyBracket) {
        Err(e) => Err(e),
        Ok(true) => if had_comma {
            Err(spec_make_err_prev(st, SpecParserErrKind::UnexpectedToken))
        } else {
            match spec_consume(st, SpecTokenKind::RCurlyBracket) {
                (Err(e), _) => Err(e),
                (Ok(_), st2) => if street is None {
                    Err(
                        SpecParserErr {
                            kind: SpecParserErrKind::MissingProperty(seq!['s', 't', 'r', 'e', 'e', 't']),
                            line: lcurly.line,
                            lexeme: lcurly.lexeme,
                        },
                    )
                } else if city is None {
                    Err(
                        SpecParserErr {
                            kind: SpecParserErrKind::MissingProperty(seq!['c', 'i', 't', 'y']),
                            line: lcurly.line,
                            lexeme: lcurly.lexeme,
                        },
                    )
                } else if zipcode is None {
                    Err(
                        SpecParserErr {
                            kind: SpecParserErrKind::MissingProperty(seq!['z', 'i', 'p', 'c', 'o', 'd', 'e']),
                            line: lcurly.line,
                            lexeme: lcurly.lexeme,
                        },
                    )
                } else if country is None {
                    Err(
                        SpecParserErr {
                            kind: SpecParserErrKind::MissingProperty(seq!['c', 'o', 'u', 'n', 't', 'r', 'y']),
                            line: lcurly.line,
                            lexeme: lcurly.lexeme,
                        },
                    )
                } else {
                    Ok((SpecAddress { street: street->0, city: city->0, zipcode: zipcode->0, country: country->0 }, st2))
                },
            }
        },
        Ok(false) => match spec_advance(st) {
            (Err(e), _) => Err(e),
            (Ok(key), st1) => match key.kind {
                SpecTokenKind::Str(k) => match spec_consume(st1, SpecTokenKind::Colon) {
                    (Err(e), _) => Err(e),
                    (Ok(_), st2) => if !(0 <= parse_measure(st2) <= parse_measure(st)) {
                        arbitrary()
                    } else {
                        if k == seq!['s', 't', 'r', 'e', 'e', 't'] {
                            match spec_parse_string(st2) {
                                Err(e) => Err(e),
                                Ok((v, st3)) => spec_parse_address_after_field(st, st3, lcurly, Some(v), city, zipcode, country),
                            }
                        } else if k == seq!['c', 'i', 't', 'y'] {
                            match spec_parse_string(st2) {
                                Err(e) => Err(e),
                                Ok((v, st3)) => spec_parse_address_after_field(st, st3, lcurly, street, Some(v), zipcode, country),
                            }
                        } else if k == seq!['z', 'i', 'p', 'c', 'o', 'd', 'e'] {
                            match spec_parse_string(st2) {
                                Err(e) => Err(e),
                                Ok((v, st3)) => spec_parse_address_after_field(st, st3, lcurly, street, city, Some(v), country),
                            }
                        } else if k == seq!['c', 'o', 'u', 'n', 't', 'r', 'y'] {
                            match spec_parse_string(st2) {
                                Err(e) => Err(e),
                                Ok((v, st3)) => spec_parse_address_after_field(st, st3, lcurly, street, city, zipcode, Some(v)),
                            }
                        } else {
                            Err(
                                SpecParserErr {
                                    kind: SpecParserErrKind::UnknownProperty,
                                    line: key.line,
                                    lexeme: key.lexeme,
                                },
                            )
                        }
                    },
                },
                _ => Err(
                    SpecParserErr {
                        kind: SpecParserErrKind::UnexpectedToken,
                        line: key.line,
                        lexeme: key.lexeme,
                    },
                ),
            },
        },
    }
}

/// After one field of a address was filled: continue behind a comma or close.
pub open spec fn spec_parse_address_after_field(
    st: SpecParser,
    st3: SpecParser,
    lcurly: SpecToken,
    street: Option<Seq<char>>, city: Option<Seq<char>>, zipcode: Option<Seq<char>>, country: Option<Seq<char>>,
) -> Result<(SpecAddress, SpecParser), SpecParserErr>
    decreases parse_measure(st), parse_measure(st3),
{
    match spec_check(st3, SpecTokenKind::Comma) {
        Err(e) => Err(e),
        Ok(true) => match spec_advance(st3) {
            (Err(e), _) => Err(e),
            (Ok(_), st4) => if 0 <= parse_measure(st4) < parse_measure(st) {
                spec_parse_address_fields(st4, lcurly, street, city, zipcode, country, true)
            } else {
                arbitrary()
            },
        },
        Ok(false) => match spec_consume(st3, SpecTokenKind::RCurlyBracket) {
            (Err(e), _) => Err(e),
            (Ok(_), st4) => if street is None {
                    Err(
                        SpecParserErr {
                            kind: SpecParserErrKind::MissingProperty(seq!['s', 't', 'r', 'e', 'e', 't']),
                            line: lcurly.line,
                            lexeme: lcurly.lexeme,
                        },
                    )
                } else if city is None {
                    Err(
                        SpecParserErr {
                            kind: SpecParserErrKind::MissingProperty(seq!['c', 'i', 't', 'y']),
                            line: lcurly.line,
                            lexeme: lcurly.lexeme,
                        },
                    )
                } else if zipcode is None {
                    Err(
                        SpecParserErr {
                            kind: SpecParserErrKind::MissingProperty(seq!['z', 'i', 'p', 'c', 'o', 'd', 'e']),
                            line: lcurly.line,
                            lexeme: lcurly.lexeme,
                        },
                    )
                } else if country is None {
                    Err(
                        SpecParserErr {
                            kind: SpecParserErrKind::MissingProperty(seq!['c', 'o', 'u', 'n', 't', 'r', 'y']),
                            line: lcurly.line,
                            lexeme: lcurly.lexeme,
                        },
                    )
                } else {
                Ok((SpecAddress { street: street->0, city: city->0, zipcode: zipcode->0, country: country->0 }, st4))
            },
        },
    }
}

/// A address object: `{`, then the field loop.
pub open spec fn spec_parse_address(st: SpecParser) -> Result<(SpecAddress, SpecParser), SpecParserErr> {
    match spec_consume(st, SpecTokenKind::LCurlyBracket) {
        (Err(e), _) => Err(e),
        (Ok(lcurly), st1) => if 0 <= parse_measure(st1) < parse_measure(st) {
            spec_parse_address_fields(st1, lcurly, None, None, None, None, false)
        } else {
            arbitrary()
        },
    }
}

impl Parse for Address {
    open spec fn spec_parse(st: SpecParser) -> Result<(SpecAddress, SpecParser), SpecParserErr> {
        spec_parse_address(st)
    }

    #[verifier::rlimit(80)]
    fn parse(p: &mut Parser) -> (r: Result<Self, ParserErr>) {
        let ghost st0 = p@;
        let lcurly = match p.consume(TokenKind::LCurlyBracket) {
            Ok(t) => t,
            Err(e) => {
                return Err(e);
            },
        };
        let kw_street = ['s', 't', 'r', 'e', 'e', 't'];
        let kw_city = ['c', 'i', 't', 'y'];
        let kw_zipcode = ['z', 'i', 'p', 'c', 'o', 'd', 'e'];
        let kw_country = ['c', 'o', 'u', 'n', 't', 'r', 'y'];
        proof {
            assert(kw_street@ =~= seq!['s', 't', 'r', 'e', 'e', 't']);
            assert(kw_city@ =~= seq!['c', 'i', 't', 'y']);
            assert(kw_zipcode@ =~= seq!['z', 'i', 'p', 'c', 'o', 'd', 'e']);
            assert(kw_country@ =~= seq!['c', 'o', 'u', 'n', 't', 'r', 'y']);
        }
        let mut street: Option<String> = None;
        let mut city: Option<String> = None;
        let mut zipcode: Option<String> = None;
        let mut country: Option<String> = None;
        let mut had_comma = false;
        #[verifier::loop_isolation(false)]
        loop
            invariant
                p.wf(),
                p@.scanner.source == st0.scanner.source,
                parse_measure(p@) < parse_measure(st0),
                Self::spec_parse(st0) == spec_parse_address_fields(
                    p@,
                    lcurly@,
                    match street { Some(s) => Some(s@), None => None },
                    match city { Some(s) => Some(s@), None => None },
                    match zipcode { Some(s) => Some(s@), None => None },
                    match country { Some(s) => Some(s@), None => None },
                    had_comma,
                ),
                had_comma ==> p@.prev is Some,
            decreases parse_measure(p@),
        {
            let at_end = match p.check(TokenKind::RCurlyBracket) {
                Ok(b) => b,
                Err(e) => {
                    return Err(e);
                },
            };
            if at_end {
                if had_comma {
                    return Err(p.make_err_prev(ParserErrKind::UnexpectedToken));
                }
                match p.consume(TokenKind::RCurlyBracket) {
                    Ok(_) => {},
                    Err(e) => {
                        return Err(e);
                    },
                };
                let got_street = match street {
                    Some(v) => v,
                    None => {
                        return Err(
                            p.make_err_from_token(
                                ParserErrKind::MissingProperty(string_of_chars(&kw_street)),
                                &lcurly,
                            ),
                        );
                    },
                };
                let got_city = match city {
                    Some(v) => v,
                    None => {
                        return Err(
                            p.make_err_from_token(
                                ParserErrKind::MissingProperty(string_of_chars(&kw_city)),
                                &lcurly,
                            ),
                        );
                    },
                };
                let got_zipcode = match zipcode {
                    Some(v) => v,
                    None => {
                        return Err(
                            p.make_err_from_token(
                                ParserErrKind::MissingProperty(string_of_chars(&kw_zipcode)),
                                &lcurly,
                            ),
                        );
                    },
                };
                let got_country = match country {
                    Some(v) => v,
                    None => {
                        return Err(
                            p.make_err_from_token(
                                ParserErrKind::MissingProperty(string_of_chars(&kw_country)),
                                &lcurly,
                            ),
                        );
                    },
                };
                return Ok(Address { street: got_street, city: got_city, zipcode: got_zipcode, country: got_country });
            }
            let key = match p.advance() {
                Ok(t) => t,
                Err(e) => {
                    return Err(e);
                },
            };
            match key.kind {
                TokenKind::String(ref k) => {
                    match p.consume(TokenKind::Colon) {
                        Ok(_) => {},
                        Err(e) => {
                            return Err(e);
                        },
                    };
                    if str_eq_chars(k.as_str(), &kw_street) {
                        let v = match String::parse(p) {
                            Ok(v) => v,
                            Err(e) => {
                                return Err(e);
                            },
                        };
                        street = Some(v);
                    } else if str_eq_chars(k.as_str(), &kw_city) {
                        let v = match String::parse(p) {
                            Ok(v) => v,
                            Err(e) => {
                                return Err(e);
                            },
                        };
                        city = Some(v);
                    } else if str_eq_chars(k.as_str(), &kw_zipcode) {
                        let v = match String::parse(p) {
                            Ok(v) => v,
                            Err(e) => {
                                return Err(e);
                            },
                        };
                        zipcode = Some(v);
                    } else if str_eq_chars(k.as_str(), &kw_country) {
                        let v = match String::parse(p) {
                            Ok(v) => v,
                            Err(e) => {
                                return Err(e);
                            },
                        };
                        country = Some(v);
                    } else {
                        return Err(p.make_err_from_token(ParserErrKind::UnknownProperty, &key));
                    }
                    let more = match p.check(TokenKind::Comma) {
                        Ok(b) => b,
                        Err(e) => {
                            return Err(e);
                        },
                    };
                    if more {
                        match p.advance() {
                            Ok(_) => {},
                            Err(e) => {
                                return Err(e);
                            },
                        };
                        had_comma = true;
                    } else {
                        match p.consume(TokenKind::RCurlyBracket) {
                            Ok(_) => {},
                            Err(e) => {
                                return Err(e);
                            },
                        };
                        let got_street = match street {
                            Some(v) => v,
                            None => {
                                return Err(
                                    p.make_err_from_token(
                                        ParserErrKind::MissingProperty(string_of_chars(&kw_street)),
                                        &lcurly,
                                    ),
                                );
                            },
                        };
                        let got_city = match city {
                            Some(v) => v,
                            None => {
                                return Err(
                                    p.make_err_from_token(
                                        ParserErrKind::MissingProperty(string_of_chars(&kw_city)),
                                        &lcurly,
                                    ),
                                );
                            },
                        };
                        let got_zipcode = match zipcode {
                            Some(v) => v,
                            None => {
                                return Err(
                                    p.make_err_from_token(
                                        ParserErrKind::MissingProperty(string_of_chars(&kw_zipcode)),
                                        &lcurly,
                                    ),
                                );
                            },
                        };
                        let got_country = match country {
                            Some(v) => v,
                            None => {
                                return Err(
                                    p.make_err_from_token(
                                        ParserErrKind::MissingProperty(string_of_chars(&kw_country)),
                                        &lcurly,
                                    ),
                                );
                            },
                        };
                        return Ok(Address { street: got_street, city: got_city, zipcode: got_zipcode, country: got_country });
                    }
                },
                _ => {
                    return Err(p.make_err_prev(ParserErrKind::UnexpectedToken));
                },
            }
        }
    }
}


/// A history record of the example schema.
#[derive(Debug, PartialEq)]
pub struct History {
    pub login: String,
    pub ip: String,
    pub success: bool,
}

/// The mathematical model of a history record.
pub struct SpecHistory {
    pub login: Seq<char>,
    pub ip: Seq<char>,
    pub success: bool,
}

impl DeepView for History {
    type V = SpecHistory;

    open spec fn deep_view(&self) -> SpecHistory {
        SpecHistory { login: self.login@, ip: self.ip@, success: self.success }
    }
}

/// The field loop of a history object.
pub open spec fn spec_parse_history_fields(
    st: SpecParser,
    lcurly: SpecToken,
    login: Option<Seq<char>>, ip: Option<Seq<char>>, success: Option<bool>,
    had_comma: bool,
) -> Result<(SpecHistory, SpecParser), SpecParserErr>
    decreases parse_measure(st),
{
    match spec_check(st, SpecTokenKind::RCurlyBracket) {
        Err(e) => Err(e),
        Ok(true) => if had_comma {
            Err(spec_make_err_prev(st, SpecParserErrKind::UnexpectedToken))
        } else {
            match spec_consume(st, SpecTokenKind::RCurlyBracket) {
                (Err(e), _) => Err(e),
                (Ok(_), st2) => if login is None {
                    Err(
                        SpecParserErr {
                            kind: SpecParserErrKind::MissingProperty(seq!['l', 'o', 'g', 'i', 'n']),
                            line: lcurly.line,
                            lexeme: lcurly.lexeme,
                        },
                    )
                } else if ip is None {
                    Err(
                        SpecParserErr {
                            kind: SpecParserErrKind::MissingProperty(seq!['i', 'p']),
                            line: lcurly.line,
                            lexeme: lcurly.lexeme,
                        },
                    )
                } else if success is None {
                    Err(
                        SpecParserErr {
                            kind: SpecParserErrKind::MissingProperty(seq!['s', 'u', 'c', 'c', 'e', 's', 's']),
                            line: lcurly.line,
                            lexeme: lcurly.lexeme,
                        },
                    )
                } else {
                    Ok((SpecHistory { login: login->0, ip: ip->0, success: success->0 }, st2))
                },
            }
        },
        Ok(false) => match spec_advance(st) {
            (Err(e), _) => Err(e),
            (Ok(key), st1) => match key.kind {
                SpecTokenKind::Str(k) => match spec_consume(st1, SpecTokenKind::Colon) {
                    (Err(e), _) => Err(e),
                    (Ok(_), st2) => if !(0 <= parse_measure(st2) <= parse_measure(st)) {
                        arbitrary()
                    } else {
                        if k == seq!['l', 'o', 'g', 'i', 'n'] {
                            match spec_parse_string(st2) {
                                Err(e) => Err(e),
                                Ok((v, st3)) => spec_parse_history_after_field(st, st3, lcurly, Some(v), ip, success),
                            }
                        } else if k == seq!['i', 'p'] {
                            match spec_parse_string(st2) {
                                Err(e) => Err(e),
                                Ok((v, st3)) => spec_parse_history_after_field(st, st3, lcurly, login, Some(v), success),
                            }
                        } else if k == seq!['s', 'u', 'c', 'c', 'e', 's', 's'] {
                            match spec_parse_bool(st2) {
                                Err(e) => Err(e),
                                Ok((v, st3)) => spec_parse_history_after_field(st, st3, lcurly, login, ip, Some(v)),
                            }
                        } else {
                            Err(
                                SpecParserErr {
                                    kind: SpecParserErrKind::UnknownProperty,
                                    line: key.line,
                                    lexeme: key.lexeme,
                                },
                            )
                        }
                    },
                },
                _ => Err(
                    SpecParserErr {
                        kind: SpecParserErrKind::UnexpectedToken,
                        line: key.line,
                        lexeme: key.lexeme,
                    },
                ),
            },
        },
    }
}

/// After one field of a history was filled: continue behind a comma or close.
pub open spec fn spec_parse_history_after_field(
    st: SpecParser,
    st3: SpecParser,
    lcurly: SpecToken,
    login: Option<Seq<char>>, ip: Option<Seq<char>>, success: Option<bool>,
) -> Result<(SpecHistory, SpecParser), SpecParserErr>
    decreases parse_measure(st), parse_measure(st3),
{
    match spec_check(st3, SpecTokenKind::Comma) {
        Err(e) => Err(e),
        Ok(true) => match spec_advance(st3) {
            (Err(e), _) => Err(e),
            (Ok(_), st4) => if 0 <= parse_measure(st4) < parse_measure(st) {
                spec_parse_history_fields(st4, lcurly, login, ip, success, true)
            } else {
                arbitrary()
            },
        },
        Ok(false) => match spec_consume(st3, SpecTokenKind::RCurlyBracket) {
            (Err(e), _) => Err(e),
            (Ok(_), st4) => if login is None {
                    Err(
                        SpecParserErr {
                            kind: SpecParserErrKind::MissingProperty(seq!['l', 'o', 'g', 'i', 'n']),
                            line: lcurly.line,
                            lexeme: lcurly.lexeme,
                        },
                    )
                } else if ip is None {
                    Err(
                        SpecParserErr {
                            kind: SpecParserErrKind::MissingProperty(seq!['i', 'p']),
                            line: lcurly.line,
                            lexeme: lcurly.lexeme,
                        },
                    )
                } else if success is None {
                    Err(
                        SpecParserErr {
                            kind: SpecParserErrKind::MissingProperty(seq!['s', 'u', 'c', 'c', 'e', 's', 's']),
                            line: lcurly.line,
                            lexeme: lcurly.lexeme,
                        },
                    )
                } else {
                Ok((SpecHistory { login: login->0, ip: ip->0, success: success->0 }, st4))
            },
        },
    }
}

/// A history object: `{`, then the field loop.
pub open spec fn spec_parse_history(st: SpecParser) -> Result<(SpecHistory, SpecParser), SpecParserErr> {
    match spec_consume(st, SpecTokenKind::LCurlyBracket) {
        (Err(e), _) => Err(e),
        (Ok(lcurly), st1) => if 0 <= parse_measure(st1) < parse_measure(st) {
            spec_parse_history_fields(st1, lcurly, None, None, None, false)
        } else {
            arbitrary()
        },
    }
}

impl Parse for History {
    open spec fn spec_parse(st: SpecParser) -> Result<(SpecHistory, SpecParser), SpecParserErr> {
        spec_parse_history(st)
    }

    fn parse(p: &mut Parser) -> (r: Result<Self, ParserErr>) {
        let ghost st0 = p@;
        let lcurly = match p.consume(TokenKind::LCurlyBracket) {
            Ok(t) => t,
            Err(e) => {
                return Err(e);
            },
        };
        let kw_login = ['l', 'o', 'g', 'i', 'n'];
        let kw_ip = ['i', 'p'];
        let kw_success = ['s', 'u', 'c', 'c', 'e', 's', 's'];
        proof {
            assert(kw_login@ =~= seq!['l', 'o', 'g', 'i', 'n']);
            assert(kw_ip@ =~= seq!['i', 'p']);
            assert(kw_success@ =~= seq!['s', 'u', 'c', 'c', 'e', 's', 's']);
        }
        let mut login: Option<String> = None;
        let mut ip: Option<String> = None;
        let mut success: Option<bool> = None;
        let mut had_comma = false;
        #[verifier::loop_isolation(false)]
        loop
            invariant
                p.wf(),
                p@.scanner.source == st0.scanner.source,
                parse_measure(p@) < parse_measure(st0),
                Self::spec_parse(st0) == spec_parse_history_fields(
                    p@,
                    lcurly@,
                    match login { Some(s) => Some(s@), None => None },
                    match ip { Some(s) => Some(s@), None => None },
                    success,
                    had_comma,
                ),
                had_comma ==> p@.prev is Some,
            decreases parse_measure(p@),
        {
            let at_end = match p.check(TokenKind::RCurlyBracket) {
                Ok(b) => b,
                Err(e) => {
                    return Err(e);
                },
            };
            if at_end {
                if had_comma {
                    return Err(p.make_err_prev(ParserErrKind::UnexpectedToken));
                }
                match p.consume(TokenKind::RCurlyBracket) {
                    Ok(_) => {},
                    Err(e) => {
                        return Err(e);
                    },
                };
                let got_login = match login {
                    Some(v) => v,
                    None => {
                        return Err(
                            p.make_err_from_token(
                                ParserErrKind::MissingProperty(string_of_chars(&kw_login)),
                                &lcurly,
                            ),
                        );
                    },
                };
                let got_ip = match ip {
                    Some(v) => v,
                    None => {
                        return Err(
                            p.make_err_from_token(
                                ParserErrKind::MissingProperty(string_of_chars(&kw_ip)),
                                &lcurly,
                            ),
                        );
                    },
                };
                let got_success = match success {
                    Some(v) => v,
                    None => {
                        return Err(
                            p.make_err_from_token(
                                ParserErrKind::MissingProperty(string_of_chars(&kw_success)),
                                &lcurly,
                            ),
                        );
                    },
                };
                return Ok(History { login: got_login, ip: got_ip, success: got_success });
            }
            let key = match p.advance() {
                Ok(t) => t,
                Err(e) => {
                    return Err(e);
                },
            };
            match key.kind {
                TokenKind::String(ref k) => {
                    match p.consume(TokenKind::Colon) {
                        Ok(_) => {},
                        Err(e) => {
                            return Err(e);
                        },
                    };
                    if str_eq_chars(k.as_str(), &kw_login) {
                        let v = match String::parse(p) {
                            Ok(v) => v,
                            Err(e) => {
                                return Err(e);
                            },
                        };
                        login = Some(v);
                    } else if str_eq_chars(k.as_str(), &kw_ip) {
                        let v = match String::parse(p) {
                            Ok(v) => v,
                            Err(e) => {
                                return Err(e);
                            },
                        };
                        ip = Some(v);
                    } else if str_eq_chars(k.as_str(), &kw_success) {
                        let v = match bool::parse(p) {
                            Ok(v) => v,
                            Err(e) => {
                                return Err(e);
                            },
                        };
                        success = Some(v);
                    } else {
                        return Err(p.make_err_from_token(ParserErrKind::UnknownProperty, &key));
                    }
                    let more = match p.check(TokenKind::Comma) {
                        Ok(b) => b,
                        Err(e) => {
                            return Err(e);
                        },
                    };
                    if more {
                        match p.advance() {
                            Ok(_) => {},
                            Err(e) => {
                                return Err(e);
                            },
                        };
                        had_comma = true;
                    } else {
                        match p.consume(TokenKind::RCurlyBracket) {
                            Ok(_) => {},
                            Err(e) => {
                                return Err(e);
                            },
                        };
                        let got_login = match login {
                            Some(v) => v,
                            None => {
                                return Err(
                                    p.make_err_from_token(
                                        ParserErrKind::MissingProperty(string_of_chars(&kw_login)),
                                        &lcurly,
                                    ),
                                );
                            },
                        };
                        let got_ip = match ip {
                            Some(v) => v,
                            None => {
                                return Err(
                                    p.make_err_from_token(
                                        ParserErrKind::MissingProperty(string_of_chars(&kw_ip)),
                                        &lcurly,
                                    ),
                                );
                            },
                        };
                        let got_success = match success {
                            Some(v) => v,
                            None => {
                                return Err(
                                    p.make_err_from_token(
                                        ParserErrKind::MissingProperty(string_of_chars(&kw_success)),
                                        &lcurly,
                                    ),
                                );
                            },
                        };
                        return Ok(History { login: got_login, ip: got_ip, success: got_success });
                    }
                },
                _ => {
                    return Err(p.make_err_prev(ParserErrKind::UnexpectedToken));
                },
            }
        }
    }
}


/// A contact record of the example schema.
#[derive(Debug, PartialEq)]
pub struct Contact {
    pub email: String,
    pub phone: String,
    pub address: Address,
}

/// The mathematical model of a contact record.
pub struct SpecContact {
    pub email: Seq<char>,
    pub phone: Seq<char>,
    pub address: SpecAddress,
}

impl DeepView for Contact {
    type V = SpecContact;

    open spec fn deep_view(&self) -> SpecContact {
        SpecContact { email: self.email@, phone: self.phone@, address: self.address.deep_view() }
    }
}

/// The field loop of a contact object.
pub open spec fn spec_parse_contact_fields(
    st: SpecParser,
    lcurly: SpecToken,
    email: Option<Seq<char>>, phone: Option<Seq<char>>, address: Option<SpecAddress>,
    had_comma: bool,
) -> Result<(SpecContact, SpecParser), SpecParserErr>
    decreases parse_measure(st),
{
    match spec_check(st, SpecTokenKind::RCurlyBracket) {
        Err(e) => Err(e),
        Ok(true) => if had_comma {
            Err(spec_make_err_prev(st, SpecParserErrKind::UnexpectedToken))
        } else {
            match spec_consume(st, SpecTokenKind::RCurlyBracket) {
                (Err(e), _) => Err(e),
                (Ok(_), st2) => if email is None {
                    Err(
                        SpecParserErr {
                            kind: SpecParserErrKind::MissingProperty(seq!['e', 'm', 'a', 'i', 'l']),
                            line: lcurly.line,
                            lexeme: lcurly.lexeme,
                        },
                    )
                } else if phone is None {
                    Err(
                        SpecParserErr {
                            kind: SpecParserErrKind::MissingProperty(seq!['p', 'h', 'o', 'n', 'e']),
                            line: lcurly.line,
                            lexeme: lcurly.lexeme,
                        },
                    )
                } else if address is None {
                    Err(
                        SpecParserErr {
                            kind: SpecParserErrKind::MissingProperty(seq!['a', 'd', 'd', 'r', 'e', 's', 's']),
                            line: lcurly.line,
                            lexeme: lcurly.lexeme,
                        },
                    )
                } else {
                    Ok((SpecContact { email: email->0, phone: phone->0, address: address->0 }, st2))
                },
            }
        },
        Ok(false) => match spec_advance(st) {
            (Err(e), _) => Err(e),
            (Ok(key), st1) => match key.kind {
                SpecTokenKind::Str(k) => match spec_consume(st1, SpecTokenKind::Colon) {
                    (Err(e), _) => Err(e),
                    (Ok(_), st2) => if !(0 <= parse_measure(st2) <= parse_measure(st)) {
                        arbitrary()
                    } else {
                        if k == seq!['e', 'm', 'a', 'i', 'l'] {
                            match spec_parse_string(st2) {
                                Err(e) => Err(e),
                                Ok((v, st3)) => spec_parse_contact_after_field(st, st3, lcurly, Some(v), phone, address),
                            }
                        } else if k == seq!['p', 'h', 'o', 'n', 'e'] {
                            match spec_parse_string(st2) {
                                Err(e) => Err(e),
                                Ok((v, st3)) => spec_parse_contact_after_field(st, st3, lcurly, email, Some(v), address),
                            }
                        } else if k == seq!['a', 'd', 'd', 'r', 'e', 's', 's'] {
                            match spec_parse_address(st2) {
                                Err(e) => Err(e),
                                Ok((v, st3)) => spec_parse_contact_after_field(st, st3, lcurly, email, phone, Some(v)),
                            }
                        } else {
                            Err(
                                SpecParserErr {
                                    kind: SpecParserErrKind::UnknownProperty,
                                    line: key.line,
                                    lexeme: key.lexeme,
                                },
                            )
                        }
                    },
                },
                _ => Err(
                    SpecParserErr {
                        kind: SpecParserErrKind::UnexpectedToken,
                        line: key.line,
                        lexeme: key.lexeme,
                    },
                ),
            },
        },
    }
}

/// After one field of a contact was filled: continue behind a comma or close.
pub open spec fn spec_parse_contact_after_field(
    st: SpecParser,
    st3: SpecParser,
    lcurly: SpecToken,
    email: Option<Seq<char>>, phone: Option<Seq<char>>, address: Option<SpecAddress>,
) -> Result<(SpecContact, SpecParser), SpecParserErr>
    decreases parse_measure(st), parse_measure(st3),
{
    match spec_check(st3, SpecTokenKind::Comma) {
        Err(e) => Err(e),
        Ok(true) => match spec_advance(st3) {
            (Err(e), _) => Err(e),
            (Ok(_), st4) => if 0 <= parse_measure(st4) < parse_measure(st) {
                spec_parse_contact_fields(st4, lcurly, email, phone, address, true)
            } else {
                arbitrary()
            },
        },
        Ok(false) => match spec_consume(st3, SpecTokenKind::RCurlyBracket) {
            (Err(e), _) => Err(e),
            (Ok(_), st4) => if email is None {
                    Err(
                        SpecParserErr {
                            kind: SpecParserErrKind::MissingProperty(seq!['e', 'm', 'a', 'i', 'l']),
                            line: lcurly.line,
                            lexeme: lcurly.lexeme,
                        },
                    )
                } else if phone is None {
                    Err(
                        SpecParserErr {
                            kind: SpecParserErrKind::MissingProperty(seq!['p', 'h', 'o', 'n', 'e']),
                            line: lcurly.line,
                            lexeme: lcurly.lexeme,
                        },
                    )
                } else if address is None {
                    Err(
                        SpecParserErr {
                            kind: SpecParserErrKind::MissingProperty(seq!['a', 'd', 'd', 'r', 'e', 's', 's']),
                            line: lcurly.line,
                            lexeme: lcurly.lexeme,
                        },
                    )
                } else {
                Ok((SpecContact { email: email->0, phone: phone->0, address: address->0 }, st4))
            },
        },
    }
}

/// A contact object: `{`, then the field loop.
pub open spec fn spec_parse_contact(st: SpecParser) -> Result<(SpecContact, SpecParser), SpecParserErr> {
    match spec_consume(st, SpecTokenKind::LCurlyBracket) {
        (Err(e), _) => Err(e),
        (Ok(lcurly), st1) => if 0 <= parse_measure(st1) < parse_measure(st) {
            spec_parse_contact_fields(st1, lcurly, None, None, None, false)
        } else {
            arbitrary()
        },
    }
}

impl Parse for Contact {
    open spec fn spec_parse(st: SpecParser) -> Result<(SpecContact, SpecParser), SpecParserErr> {
        spec_parse_contact(st)
    }

    #[verifier::rlimit(80)]
    fn parse(p: &mut Parser) -> (r: Result<Self, ParserErr>) {
        let ghost st0 = p@;
        let lcurly = match p.consume(TokenKind::LCurlyBracket) {
            Ok(t) => t,
            Err(e) => {
                return Err(e);
            },
        };
        let kw_email = ['e', 'm', 'a', 'i', 'l'];
        let kw_phone = ['p', 'h', 'o', 'n', 'e'];
        let kw_address = ['a', 'd', 'd', 'r', 'e', 's', 's'];
        proof {
            assert(kw_email@ =~= seq!['e', 'm', 'a', 'i', 'l']);
            assert(kw_phone@ =~= seq!['p', 'h', 'o', 'n', 'e']);
            assert(kw_address@ =~= seq!['a', 'd', 'd', 'r', 'e', 's', 's']);
        }
        let mut email: Option<String> = None;
        let mut phone: Option<String> = None;
        let mut address: Option<Address> = None;
        let mut had_comma = false;
        #[verifier::loop_isolation(false)]
        loop
            invariant
                p.wf(),
                p@.scanner.source == st0.scanner.source,
                parse_measure(p@) < parse_measure(st0),
                Self::spec_parse(st0) == spec_parse_contact_fields(
                    p@,
                    lcurly@,
                    match email { Some(s) => Some(s@), None => None },
                    match phone { Some(s) => Some(s@), None => None },
                    match address { Some(v) => Some(v.deep_view()), None => None },
                    had_comma,
                ),
                had_comma ==> p@.prev is Some,
            decreases parse_measure(p@),
        {
            let at_end = match p.check(TokenKind::RCurlyBracket) {
                Ok(b) => b,
                Err(e) => {
                    return Err(e);
                },
            };
            if at_end {
                if had_comma {
                    return Err(p.make_err_prev(ParserErrKind::UnexpectedToken));
                }
                match p.consume(TokenKind::RCurlyBracket) {
                    Ok(_) => {},
                    Err(e) => {
                        return Err(e);
                    },
                };
                let got_email = match email {
                    Some(v) => v,
                    None => {
                        return Err(
                            p.make_err_from_token(
                                ParserErrKind::MissingProperty(string_of_chars(&kw_email)),
                                &lcurly,
                            ),
                        );
                    },
                };
                let got_phone = match phone {
                    Some(v) => v,
                    None => {
                        return Err(
                            p.make_err_from_token(
                                ParserErrKind::MissingProperty(string_of_chars(&kw_phone)),
                                &lcurly,
                            ),
                        );
                    },
                };
                let got_address = match address {
                    Some(v) => v,
                    None => {
                        return Err(
                            p.make_err_from_token(
                                ParserErrKind::MissingProperty(string_of_chars(&kw_address)),
                                &lcurly,
                            ),
                        );
                    },
                };
                return Ok(Contact { email: got_email, phone: got_phone, address: got_address });
            }
            let key = match p.advance() {
                Ok(t) => t,
                Err(e) => {
                    return Err(e);
                },
            };
            match key.kind {
                TokenKind::String(ref k) => {
                    match p.consume(TokenKind::Colon) {
                        Ok(_) => {},
                        Err(e) => {
                            return Err(e);
                        },
                    };
                    if str_eq_chars(k.as_str(), &kw_email) {
                        let v = match String::parse(p) {
                            Ok(v) => v,
                            Err(e) => {
                                return Err(e);
                            },
                        };
                        email = Some(v);
                    } else if str_eq_chars(k.as_str(), &kw_phone) {
                        let v = match String::parse(p) {
                            Ok(v) => v,
                            Err(e) => {
                                return Err(e);
                            },
                        };
                        phone = Some(v);
                    } else if str_eq_chars(k.as_str(), &kw_address) {
                        let v = match Address::parse(p) {
                            Ok(v) => v,
                            Err(e) => {
                                return Err(e);
                            },
                        };
                        address = Some(v);
                    } else {
                        return Err(p.make_err_from_token(ParserErrKind::UnknownProperty, &key));
                    }
                    let more = match p.check(TokenKind::Comma) {
                        Ok(b) => b,
                        Err(e) => {
                            return Err(e);
                        },
                    };
                    if more {
                        match p.advance() {
                            Ok(_) => {},
                            Err(e) => {
                                return Err(e);
                            },
                        };
                        had_comma = true;
                    } else {
                        match p.consume(TokenKind::RCurlyBracket) {
                            Ok(_) => {},
                            Err(e) => {
                                return Err(e);
                            },
                        };
                        let got_email = match email {
                            Some(v) => v,
                            None => {
                                return Err(
                                    p.make_err_from_token(
                                        ParserErrKind::MissingProperty(string_of_chars(&kw_email)),
                                        &lcurly,
                                    ),
                                );
                            },
                        };
                        let got_phone = match phone {
                            Some(v) => v,
                            None => {
                                return Err(
                                    p.make_err_from_token(
                                        ParserErrKind::MissingProperty(string_of_chars(&kw_phone)),
                                        &lcurly,
                                    ),
                                );
                            },
                        };
                        let got_address = match address {
                            Some(v) => v,
                            None => {
                                return Err(
                                    p.make_err_from_token(
                                        ParserErrKind::MissingProperty(string_of_chars(&kw_address)),
                                        &lcurly,
                                    ),
                                );
                            },
                        };
                        return Ok(Contact { email: got_email, phone: got_phone, address: got_address });
                    }
                },
                _ => {
                    return Err(p.make_err_prev(ParserErrKind::UnexpectedToken));
                },
            }
        }
    }
}


/// A preferences record of the example schema.
#[derive(Debug, PartialEq)]
pub struct Preferences {
    pub notifications: Notifications,
    pub theme: String,
    pub language: String,
}

/// The mathematical model of a preferences record.
pub struct SpecPreferences {
    pub notifications: SpecNotifications,
    pub theme: Seq<char>,
    pub language: Seq<char>,
}

impl DeepView for Preferences {
    type V = SpecPreferences;

    open spec fn deep_view(&self) -> SpecPreferences {
        SpecPreferences { notifications: self.notifications.deep_view(), theme: self.theme@, language: self.language@ }
    }
}

/// The field loop of a preferences object.
pub open spec fn spec_parse_preferences_fields(
    st: SpecParser,
    lcurly: SpecToken,
    notifications: Option<SpecNotifications>, theme: Option<Seq<char>>, language: Option<Seq<char>>,
    had_comma: bool,
) -> Result<(SpecPreferences, SpecParser), SpecParserErr>
    decreases parse_measure(st),
{
    match spec_check(st, SpecTokenKind::RCurlyBracket) {
        Err(e) => Err(e),
        Ok(true) => if had_comma {
            Err(spec_make_err_prev(st, SpecParserErrKind::UnexpectedToken))
        } else {
            match spec_consume(st, SpecTokenKind::RCurlyBracket) {
                (Err(e), _) => Err(e),
                (Ok(_), st2) => if notifications is None {
                    Err(
                        SpecParserErr {
                            kind: SpecParserErrKind::MissingProperty(seq!['n', 'o', 't', 'i', 'f', 'i', 'c', 'a', 't', 'i', 'o', 'n', 's']),
                            line: lcurly.line,
                            lexeme: lcurly.lexeme,
                        },
                    )
                } else if theme is None {
                    Err(
                        SpecParserErr {
                            kind: SpecParserErrKind::MissingProperty(seq!['t', 'h', 'e', 'm', 'e']),
                            line: lcurly.line,
                            lexeme: lcurly.lexeme,
                        },
                    )
                } else if language is None {
                    Err(
                        SpecParserErr {
                            kind: SpecParserErrKind::MissingProperty(seq!['l', 'a', 'n', 'g', 'u', 'a', 'g', 'e']),
                            line: lcurly.line,
                            lexeme: lcurly.lexeme,
                        },
                    )
                } else {
                    Ok((SpecPreferences { notifications: notifications->0, theme: theme->0, language: language->0 }, st2))
                },
            }
        },
        Ok(false) => match spec_advance(st) {
            (Err(e), _) => Err(e),
            (Ok(key), st1) => match key.kind {
                SpecTokenKind::Str(k) => match spec_consume(st1, SpecTokenKind::Colon) {
                    (Err(e), _) => Err(e),
                    (Ok(_), st2) => if !(0 <= parse_measure(st2) <= parse_measure(st)) {
                        arbitrary()
                    } else {
                        if k == seq!['n', 'o', 't', 'i', 'f', 'i', 'c', 'a', 't', 'i', 'o', 'n', 's'] {
                            match spec_parse_notifications(st2) {
                                Err(e) => Err(e),
                                Ok((v, st3)) => spec_parse_preferences_after_field(st, st3, lcurly, Some(v), theme, language),
                            }
                        } else if k == seq!['t', 'h', 'e', 'm', 'e'] {
                            match spec_parse_string(st2) {
                                Err(e) => Err(e),
                                Ok((v, st3)) => spec_parse_preferences_after_field(st, st3, lcurly, notifications, Some(v), language),
                            }
                        } else if k == seq!['l', 'a', 'n', 'g', 'u', 'a', 'g', 'e'] {
                            match spec_parse_string(st2) {
                                Err(e) => Err(e),
                                Ok((v, st3)) => spec_parse_preferences_after_field(st, st3, lcurly, notifications, theme, Some(v)),
                            }
                        } else {
                            Err(
                                SpecParserErr {
                                    kind: SpecParserErrKind::UnknownProperty,
                                    line: key.line,
                                    lexeme: key.lexeme,
                                },
                            )
                        }
                    },
                },
                _ => Err(
                    SpecParserErr {
                        kind: SpecParserErrKind::UnexpectedToken,
                        line: key.line,
                        lexeme: key.lexeme,
                    },
                ),
            },
        },
    }
}

/// After one field of a preferences was filled: continue behind a comma or close.
pub open spec fn spec_parse_preferences_after_field(
    st: SpecParser,
    st3: SpecParser,
    lcurly: SpecToken,
    notifications: Option<SpecNotifications>, theme: Option<Seq<char>>, language: Option<Seq<char>>,
) -> Result<(SpecPreferences, SpecParser), SpecParserErr>
    decreases parse_measure(st), parse_measure(st3),
{
    match spec_check(st3, SpecTokenKind::Comma) {
        Err(e) => Err(e),
        Ok(true) => match spec_advance(st3) {
            (Err(e), _) => Err(e),
            (Ok(_), st4) => if 0 <= parse_measure(st4) < parse_measure(st) {
                spec_parse_preferences_fields(st4, lcurly, notifications, theme, language, true)
            } else {
                arbitrary()
            },
        },
        Ok(false) => match spec_consume(st3, SpecTokenKind::RCurlyBracket) {
            (Err(e), _) => Err(e),
            (Ok(_), st4) => if notifications is None {
                    Err(
                        SpecParserErr {
                            kind: SpecParserErrKind::MissingProperty(seq!['n', 'o', 't', 'i', 'f', 'i', 'c', 'a', 't', 'i', 'o', 'n', 's']),
                            line: lcurly.line,
                            lexeme: lcurly.lexeme,
                        },
                    )
                } else if theme is None {
                    Err(
                        SpecParserErr {
                            kind: SpecParserErrKind::MissingProperty(seq!['t', 'h', 'e', 'm', 'e']),
                            line: lcurly.line,
                            lexeme: lcurly.lexeme,
                        },
                    )
                } else if language is None {
                    Err(
                        SpecParserErr {
                            kind: SpecParserErrKind::MissingProperty(seq!['l', 'a', 'n', 'g', 'u', 'a', 'g', 'e']),
                            line: lcurly.line,
                            lexeme: lcurly.lexeme,
                        },
                    )
                } else {
                Ok((SpecPreferences { notifications: notifications->0, theme: theme->0, language: language->0 }, st4))
            },
        },
    }
}

/// A preferences object: `{`, then the field loop.
pub open spec fn spec_parse_preferences(st: SpecParser) -> Result<(SpecPreferences, SpecParser), SpecParserErr> {
    match spec_consume(st, SpecTokenKind::LCurlyBracket) {
        (Err(e), _) => Err(e),
        (Ok(lcurly), st1) => if 0 <= parse_measure(st1) < parse_measure(st) {
            spec_parse_preferences_fields(st1, lcurly, None, None, None, false)
        } else {
            arbitrary()
        },
    }
}

impl Parse for Preferences {
    open spec fn spec_parse(st: SpecParser) -> Result<(SpecPreferences, SpecParser), SpecParserErr> {
        spec_parse_preferences(st)
    }

    #[verifier::rlimit(80)]
    fn parse(p: &mut Parser) -> (r: Result<Self, ParserErr>) {
        let ghost st0 = p@;
        let lcurly = match p.consume(TokenKind::LCurlyBracket) {
            Ok(t) => t,
            Err(e) => {
                return Err(e);
            },
        };
        let kw_notifications = ['n', 'o', 't', 'i', 'f', 'i', 'c', 'a', 't', 'i', 'o', 'n', 's'];
        let kw_theme = ['t', 'h', 'e', 'm', 'e'];
        let kw_language = ['l', 'a', 'n', 'g', 'u', 'a', 'g', 'e'];
        proof {
            assert(kw_notifications@ =~= seq!['n', 'o', 't', 'i', 'f', 'i', 'c', 'a', 't', 'i', 'o', 'n', 's']);
            assert(kw_theme@ =~= seq!['t', 'h', 'e', 'm', 'e']);
            assert(kw_language@ =~= seq!['l', 'a', 'n', 'g', 'u', 'a', 'g', 'e']);
        }
        let mut notifications: Option<Notifications> = None;
        let mut theme: Option<String> = None;
        let mut language: Option<String> = None;
        let mut had_comma = false;
        #[verifier::loop_isolation(false)]
        loop
            invariant
                p.wf(),
                p@.scanner.source == st0.scanner.source,
                parse_measure(p@) < parse_measure(st0),
                Self::spec_parse(st0) == spec_parse_preferences_fields(
                    p@,
                    lcurly@,
                    match notifications { Some(v) => Some(v.deep_view()), None => None },
                    match theme { Some(s) => Some(s@), None => None },
                    match language { Some(s) => Some(s@), None => None },
                    had_comma,
                ),
                had_comma ==> p@.prev is Some,
            decreases parse_measure(p@),
        {
            let at_end = match p.check(TokenKind::RCurlyBracket) {
                Ok(b) => b,
                Err(e) => {
                    return Err(e);
                },
            };
            if at_end {
                if had_comma {
                    return Err(p.make_err_prev(ParserErrKind::UnexpectedToken));
                }
                match p.consume(TokenKind::RCurlyBracket) {
                    Ok(_) => {},
                    Err(e) => {
                        return Err(e);
                    },
                };
                let got_notifications = match notifications {
                    Some(v) => v,
                    None => {
                        return Err(
                            p.make_err_from_token(
                                ParserErrKind::MissingProperty(string_of_chars(&kw_notifications)),
                                &lcurly,
                            ),
                        );
                    },
                };
                let got_theme = match theme {
                    Some(v) => v,
                    None => {
                        return Err(
                            p.make_err_from_token(
                                ParserErrKind::MissingProperty(string_of_chars(&kw_theme)),
                                &lcurly,
                            ),
                        );
                    },
                };
                let got_language = match language {
                    Some(v) => v,
                    None => {
                        return Err(
                            p.make_err_from_token(
                                ParserErrKind::MissingProperty(string_of_chars(&kw_language)),
                                &lcurly,
                            ),
                        );
                    },
                };
                return Ok(Preferences { notifications: got_notifications, theme: got_theme, language: got_language });
            }
            let key = match p.advance() {
                Ok(t) => t,
                Err(e) => {
                    return Err(e);
                },
            };
            match key.kind {
                TokenKind::String(ref k) => {
                    match p.consume(TokenKind::Colon) {
                        Ok(_) => {},
                        Err(e) => {
                            return Err(e);
                        },
                    };
                    if str_eq_chars(k.as_str(), &kw_notifications) {
                        let v = match Notifications::parse(p) {
                            Ok(v) => v,
                            Err(e) => {
                                return Err(e);
                            },
                        };
                        notifications = Some(v);
                    } else if str_eq_chars(k.as_str(), &kw_theme) {
                        let v = match String::parse(p) {
                            Ok(v) => v,
                            Err(e) => {
                                return Err(e);
                            },
                        };
                        theme = Some(v);
                    } else if str_eq_chars(k.as_str(), &kw_language) {
                        let v = match String::parse(p) {
                            Ok(v) => v,
                            Err(e) => {
                                return Err(e);
                            },
                        };
                        language = Some(v);
                    } else {
                        return Err(p.make_err_from_token(ParserErrKind::UnknownProperty, &key));
                    }
                    let more = match p.check(TokenKind::Comma) {
                        Ok(b) => b,
                        Err(e) => {
                            return Err(e);
                        },
                    };
                    if more {
                        match p.advance() {
                            Ok(_) => {},
                            Err(e) => {
                                return Err(e);
                            },
                        };
                        had_comma = true;
                    } else {
                        match p.consume(TokenKind::RCurlyBracket) {
                            Ok(_) => {},
                            Err(e) => {
                                return Err(e);
                            },
                        };
                        let got_notifications = match notifications {
                            Some(v) => v,
                            None => {
                                return Err(
                                    p.make_err_from_token(
                                        ParserErrKind::MissingProperty(string_of_chars(&kw_notifications)),
                                        &lcurly,
                                    ),
                                );
                            },
                        };
                        let got_theme = match theme {
                            Some(v) => v,
                            None => {
                                return Err(
                                    p.make_err_from_token(
                                        ParserErrKind::MissingProperty(string_of_chars(&kw_theme)),
                                        &lcurly,
                                    ),
                                );
                            },
                        };
                        let got_language = match language {
                            Some(v) => v,
                            None => {
                                return Err(
                                    p.make_err_from_token(
                                        ParserErrKind::MissingProperty(string_of_chars(&kw_language)),
                                        &lcurly,
                                    ),
                                );
                            },
                        };
                        return Ok(Preferences { notifications: got_notifications, theme: got_theme, language: got_language });
                    }
                },
                _ => {
                    return Err(p.make_err_prev(ParserErrKind::UnexpectedToken));
                },
            }
        }
    }
}

} // verus!
