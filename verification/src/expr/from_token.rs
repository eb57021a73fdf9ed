//! Which tokens are operators and literals.
use vstd::prelude::*;
use crate::token::{TokenType, TokenTypeView};
use crate::expr::{Boperator, Loperator, Uoperator, Literal, LiteralView};

verus! {

/// The binary operator that a token writes, if it writes one.
pub open spec fn binary_operator(t: TokenTypeView) -> Option<Boperator> {
    match t {
        TokenTypeView::EQUAL_EQUAL => Some(Boperator::EqualEqual),
        TokenTypeView::BANG_EQUAL => Some(Boperator::BangEqual),
        TokenTypeView::LESS => Some(Boperator::Less),
        TokenTypeView::LESS_EQUAL => Some(Boperator::LessEqual),
        TokenTypeView::GREATER => Some(Boperator::Greater),
        TokenTypeView::GREATER_EQUAL => Some(Boperator::GreaterEqual),
        TokenTypeView::PLUS => Some(Boperator::Plus),
        TokenTypeView::MINUS => Some(Boperator::Minus),
        TokenTypeView::STAR => Some(Boperator::Star),
        TokenTypeView::SLASH => Some(Boperator::Slash),
        _ => None,
    }
}

/// The logical operator that a token writes, if it writes one.
pub open spec fn logical_operator(t: TokenTypeView) -> Option<Loperator> {
    match t {
        TokenTypeView::OR => Some(Loperator::Or),
        TokenTypeView::AND => Some(Loperator::And),
        _ => None,
    }
}

/// The unary operator that a token writes, if it writes one.
pub open spec fn unary_operator(t: TokenTypeView) -> Option<Uoperator> {
    match t {
        TokenTypeView::BANG => Some(Uoperator::Bang),
        TokenTypeView::MINUS => Some(Uoperator::Minus),
        _ => None,
    }
}

/// The literal that a token writes, if it writes one.
pub open spec fn literal(t: TokenTypeView) -> Option<LiteralView> {
    match t {
        TokenTypeView::NUMBER(n) => Some(LiteralView::Num(n)),
        TokenTypeView::STRING(s) => Some(LiteralView::Str(s)),
        TokenTypeView::BOOL(b) => Some(LiteralView::Bool(b)),
        TokenTypeView::NIL => Some(LiteralView::Nil),
        _ => None,
    }
}

impl Boperator {
    pub fn try_from(token: &TokenType) -> (r: Result<Boperator, ()>)
        ensures
            match r {
                Ok(o) => binary_operator(token@) == Some(o),
                Err(_) => binary_operator(token@) is None,
            },
    {
        match token {
            TokenType::EQUAL_EQUAL => Ok(Boperator::EqualEqual),
            TokenType::BANG_EQUAL => Ok(Boperator::BangEqual),
            TokenType::LESS => Ok(Boperator::Less),
            TokenType::LESS_EQUAL => Ok(Boperator::LessEqual),
            TokenType::GREATER => Ok(Boperator::Greater),
            TokenType::GREATER_EQUAL => Ok(Boperator::GreaterEqual),
            TokenType::PLUS => Ok(Boperator::Plus),
            TokenType::MINUS => Ok(Boperator::Minus),
            TokenType::STAR => Ok(Boperator::Star),
            TokenType::SLASH => Ok(Boperator::Slash),
            _ => Err(()),
        }
    }
}

impl Loperator {
    pub fn try_from(token: &TokenType) -> (r: Result<Loperator, ()>)
        ensures
            match r {
                Ok(o) => logical_operator(token@) == Some(o),
                Err(_) => logical_operator(token@) is None,
            },
    {
        match token {
            TokenType::OR => Ok(Loperator::Or),
            TokenType::AND => Ok(Loperator::And),
            _ => Err(()),
        }
    }
}

impl Uoperator {
    pub fn try_from(token: &TokenType) -> (r: Result<Uoperator, ()>)
        ensures
            match r {
                Ok(o) => unary_operator(token@) == Some(o),
                Err(_) => unary_operator(token@) is None,
            },
    {
        match token {
            TokenType::BANG => Ok(Uoperator::Bang),
            TokenType::MINUS => Ok(Uoperator::Minus),
            _ => Err(()),
        }
    }
}

impl Literal {
    pub fn try_from(token: &TokenType) -> (r: Result<Literal, ()>)
        ensures
            match r {
                Ok(l) => literal(token@) == Some(l@),
                Err(_) => literal(token@) is None,
            },
    {
        match token {
            TokenType::NUMBER(n) => Ok(Literal::Num(n.clone())),
            TokenType::STRING(s) => Ok(Literal::Str(s.clone())),
            TokenType::BOOL(b) => Ok(Literal::Bool(*b)),
            TokenType::NIL => Ok(Literal::Nil),
            _ => Err(()),
        }
    }
}

} // verus!
