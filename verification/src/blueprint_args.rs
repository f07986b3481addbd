//! Typed reading of a matched command's option values, and the response a
//! command sends back.
use vstd::prelude::*;
use crate::blueprint::{BlueprintOptionValue, ValueView, value_view, values_view};
use crate::text::copy_string;
use crate::num::{parse_u64, parse_u64_spec};

verus! {

broadcast use vstd::string::group_string_axioms;

#[derive(Debug, Clone, Copy, PartialEq, Eq, Structural)]
pub struct UserId(pub u64);

#[derive(Debug, Clone, Copy, PartialEq, Eq, Structural)]
pub struct RoleId(pub u64);

#[derive(Debug, Clone, Copy, PartialEq, Eq, Structural)]
pub struct ChannelId(pub u64);

#[derive(Debug, Clone, Copy, PartialEq, Eq, Structural)]
pub struct AttachmentId(pub u64);

/// A mentionable value: a user or a role.
#[derive(Debug, Clone, Copy, PartialEq, Eq, Structural)]
pub enum RoleOrUser {
    User(UserId),
    Role(RoleId),
}

/// An argument that is parsed from its text.
#[derive(Debug, Clone, Copy, PartialEq, Eq)]
pub struct Parsed<T>(pub T);

pub open spec fn opt_value_view(v: Option<&BlueprintOptionValue>) -> Option<ValueView> {
    match v {
        Some(x) => Some(value_view(*x)),
        None => None,
    }
}

/// A type whose value is read from one option value (or its absence).
pub trait ResolveArgumentValue: Sized {
    /// Whether `r` is what reading `v` gives.
    spec fn resolves(v: Option<ValueView>, r: Option<Self>) -> bool;

    fn resolve_value(option_value: Option<&BlueprintOptionValue>) -> (r: Option<Self>)
        ensures Self::resolves(opt_value_view(option_value), r);
}

impl ResolveArgumentValue for String {
    open spec fn resolves(v: Option<ValueView>, r: Option<String>) -> bool {
        match v {
            Some(ValueView::String(s)) => r matches Some(x) && x@ == s,
            _ => r is None,
        }
    }

    fn resolve_value(option_value: Option<&BlueprintOptionValue>) -> (r: Option<String>) {
        match option_value {
            Some(BlueprintOptionValue::String(s)) => Some(copy_string(s)),
            _ => None,
        }
    }
}

impl ResolveArgumentValue for i64 {
    open spec fn resolves(v: Option<ValueView>, r: Option<i64>) -> bool {
        r == match v {
            Some(ValueView::Integer(i)) => Some(i),
            _ => None::<i64>,
        }
    }

    fn resolve_value(option_value: Option<&BlueprintOptionValue>) -> (r: Option<i64>) {
        match option_value {
            Some(BlueprintOptionValue::Integer(i)) => Some(*i),
            _ => None,
        }
    }
}

impl ResolveArgumentValue for u64 {
    /// An integer that is not negative.
    open spec fn resolves(v: Option<ValueView>, r: Option<u64>) -> bool {
        r == match v {
            Some(ValueView::Integer(i)) => if i >= 0 { Some(i as u64) } else { None::<u64> },
            _ => None::<u64>,
        }
    }

    fn resolve_value(option_value: Option<&BlueprintOptionValue>) -> (r: Option<u64>) {
        match option_value {
            Some(BlueprintOptionValue::Integer(i)) => if *i >= 0 { Some(*i as u64) } else { None },
            _ => None,
        }
    }
}

impl ResolveArgumentValue for i32 {
    /// An integer within the range of `i32`.
    open spec fn resolves(v: Option<ValueView>, r: Option<i32>) -> bool {
        r == match v {
            Some(ValueView::Integer(i)) => if i32::MIN <= i <= i32::MAX { Some(i as i32) } else { None::<i32> },
            _ => None::<i32>,
        }
    }

    fn resolve_value(option_value: Option<&BlueprintOptionValue>) -> (r: Option<i32>) {
        match option_value {
            Some(BlueprintOptionValue::Integer(i)) => {
                if i32::MIN as i64 <= *i && *i <= i32::MAX as i64 { Some(*i as i32) } else { None }
            },
            _ => None,
        }
    }
}

impl ResolveArgumentValue for u32 {
    /// An integer within the range of `u32`.
    open spec fn resolves(v: Option<ValueView>, r: Option<u32>) -> bool {
        r == match v {
            Some(ValueView::Integer(i)) => if 0 <= i <= u32::MAX { Some(i as u32) } else { None::<u32> },
            _ => None::<u32>,
        }
    }

    fn resolve_value(option_value: Option<&BlueprintOptionValue>) -> (r: Option<u32>) {
        match option_value {
            Some(BlueprintOptionValue::Integer(i)) => {
                if 0 <= *i && *i <= u32::MAX as i64 { Some(*i as u32) } else { None }
            },
            _ => None,
        }
    }
}

impl ResolveArgumentValue for bool {
    open spec fn resolves(v: Option<ValueView>, r: Option<bool>) -> bool {
        r == match v {
            Some(ValueView::Boolean(b)) => Some(b),
            _ => None::<bool>,
        }
    }

    fn resolve_value(option_value: Option<&BlueprintOptionValue>) -> (r: Option<bool>) {
        match option_value {
            Some(BlueprintOptionValue::Boolean(b)) => Some(*b),
            _ => None,
        }
    }
}

impl ResolveArgumentValue for UserId {
    open spec fn resolves(v: Option<ValueView>, r: Option<UserId>) -> bool {
        r == match v {
            Some(ValueView::User(u)) => Some(UserId(u)),
            _ => None::<UserId>,
        }
    }

    fn resolve_value(option_value: Option<&BlueprintOptionValue>) -> (r: Option<UserId>) {
        match option_value {
            Some(BlueprintOptionValue::User(u)) => Some(UserId(*u)),
            _ => None,
        }
    }
}

impl ResolveArgumentValue for RoleId {
    open spec fn resolves(v: Option<ValueView>, r: Option<RoleId>) -> bool {
        r == match v {
            Some(ValueView::Role(x)) => Some(RoleId(x)),
            _ => None::<RoleId>,
        }
    }

    fn resolve_value(option_value: Option<&BlueprintOptionValue>) -> (r: Option<RoleId>) {
        match option_value {
            Some(BlueprintOptionValue::Role(x)) => Some(RoleId(*x)),
            _ => None,
        }
    }
}

impl ResolveArgumentValue for ChannelId {
    open spec fn resolves(v: Option<ValueView>, r: Option<ChannelId>) -> bool {
        r == match v {
            Some(ValueView::Channel(c)) => Some(ChannelId(c)),
            _ => None::<ChannelId>,
        }
    }

    fn resolve_value(option_value: Option<&BlueprintOptionValue>) -> (r: Option<ChannelId>) {
        match option_value {
            Some(BlueprintOptionValue::Channel(c)) => Some(ChannelId(*c)),
            _ => None,
        }
    }
}

impl ResolveArgumentValue for AttachmentId {
    open spec fn resolves(v: Option<ValueView>, r: Option<AttachmentId>) -> bool {
        r == match v {
            Some(ValueView::Attachment(a)) => Some(AttachmentId(a)),
            _ => None::<AttachmentId>,
        }
    }

    fn resolve_value(option_value: Option<&BlueprintOptionValue>) -> (r: Option<AttachmentId>) {
        match option_value {
            Some(BlueprintOptionValue::Attachment(a)) => Some(AttachmentId(*a)),
            _ => None,
        }
    }
}

impl ResolveArgumentValue for RoleOrUser {
    open spec fn resolves(v: Option<ValueView>, r: Option<RoleOrUser>) -> bool {
        r == match v {
            Some(ValueView::User(u)) => Some(RoleOrUser::User(UserId(u))),
            Some(ValueView::Role(x)) => Some(RoleOrUser::Role(RoleId(x))),
            _ => None::<RoleOrUser>,
        }
    }

    fn resolve_value(option_value: Option<&BlueprintOptionValue>) -> (r: Option<RoleOrUser>) {
        match option_value {
            Some(BlueprintOptionValue::User(u)) => Some(RoleOrUser::User(UserId(*u))),
            Some(BlueprintOptionValue::Role(x)) => Some(RoleOrUser::Role(RoleId(*x))),
            _ => None,
        }
    }
}

impl ResolveArgumentValue for Parsed<u64> {
    /// A string holding a decimal `u64`.
    open spec fn resolves(v: Option<ValueView>, r: Option<Parsed<u64>>) -> bool {
        r == match v {
            Some(ValueView::String(s)) => match parse_u64_spec(s) {
                Some(n) => Some(Parsed(n)),
                None => None::<Parsed<u64>>,
            },
            _ => None::<Parsed<u64>>,
        }
    }

    fn resolve_value(option_value: Option<&BlueprintOptionValue>) -> (r: Option<Parsed<u64>>) {
        match option_value {
            Some(BlueprintOptionValue::String(s)) => match parse_u64(s.as_str()) {
                Some(n) => Some(Parsed(n)),
                None => None,
            },
            _ => None,
        }
    }
}

impl ResolveArgumentValue for () {
    open spec fn resolves(v: Option<ValueView>, r: Option<()>) -> bool {
        r == Some(())
    }

    fn resolve_value(option_value: Option<&BlueprintOptionValue>) -> (r: Option<()>) {
        Some(())
    }
}

impl<T: ResolveArgumentValue> ResolveArgumentValue for Option<T> {
    /// An absent value reads as `None`; a present one as what `T` reads from it,
    /// and as `None` where `T` reads nothing.
    open spec fn resolves(v: Option<ValueView>, r: Option<Option<T>>) -> bool {
        match v {
            None => r == Some(None::<T>),
            Some(x) => match r {
                Some(Some(t)) => T::resolves(Some(x), Some(t)),
                Some(None) => T::resolves(Some(x), None),
                None => false,
            },
        }
    }

    fn resolve_value(option_value: Option<&BlueprintOptionValue>) -> (r: Option<Option<T>>) {
        match option_value {
            None => Some(None),
            Some(x) => Some(T::resolve_value(Some(x))),
        }
    }
}

/// The value at position `i`, if there is one.
pub open spec fn value_at(vals: Seq<ValueView>, i: int) -> Option<ValueView> {
    if 0 <= i < vals.len() { Some(vals[i]) } else { None }
}

fn nth_value(vals: &Vec<BlueprintOptionValue>, i: usize) -> (r: Option<&BlueprintOptionValue>)
    ensures opt_value_view(r) == value_at(values_view(vals@), i as int),
{
    if i < vals.len() { Some(&vals[i]) } else { None }
}

/// A group of arguments read from the option values, one value each, in order.
pub trait ResolveArgumentsValues: Sized {
    spec fn resolves_all(vals: Seq<ValueView>, r: Option<Self>) -> bool;

    fn resolve_values(option_values: &Vec<BlueprintOptionValue>) -> (r: Option<Self>)
        ensures Self::resolves_all(values_view(option_values@), r);
}

impl<T: ResolveArgumentValue> ResolveArgumentsValues for T {
    open spec fn resolves_all(vals: Seq<ValueView>, r: Option<T>) -> bool {
        T::resolves(value_at(vals, 0), r)
    }

    fn resolve_values(option_values: &Vec<BlueprintOptionValue>) -> (r: Option<T>) {
        T::resolve_value(nth_value(option_values, 0))
    }
}

impl<A: ResolveArgumentValue, B: ResolveArgumentValue> ResolveArgumentsValues for (A, B) {
    /// Each value read in turn; `None` as soon as one reads nothing.
    open spec fn resolves_all(vals: Seq<ValueView>, r: Option<(A, B)>) -> bool {
        match r {
            Some((a, b)) => A::resolves(value_at(vals, 0), Some(a)) && B::resolves(value_at(vals, 1), Some(b)),
            None => A::resolves(value_at(vals, 0), None)
                || exists|a: A| A::resolves(value_at(vals, 0), Some(a)) && B::resolves(value_at(vals, 1), None),
        }
    }

    fn resolve_values(option_values: &Vec<BlueprintOptionValue>) -> (r: Option<(A, B)>) {
        let a = match A::resolve_value(nth_value(option_values, 0)) { Some(a) => a, None => { return None; } };
        let b = match B::resolve_value(nth_value(option_values, 1)) { Some(b) => b, None => { return None; } };
        Some((a, b))
    }
}

impl<A: ResolveArgumentValue, B: ResolveArgumentValue, C: ResolveArgumentValue> ResolveArgumentsValues for (A, B, C) {
    /// Each value read in turn; `None` as soon as one reads nothing.
    open spec fn resolves_all(vals: Seq<ValueView>, r: Option<(A, B, C)>) -> bool {
        match r {
            Some((a, b, c)) => A::resolves(value_at(vals, 0), Some(a)) && B::resolves(value_at(vals, 1), Some(b))
                && C::resolves(value_at(vals, 2), Some(c)),
            None => A::resolves(value_at(vals, 0), None)
                || (exists|a: A| A::resolves(value_at(vals, 0), Some(a))) && B::resolves(value_at(vals, 1), None)
                || (exists|a: A| A::resolves(value_at(vals, 0), Some(a)))
                    && (exists|b: B| B::resolves(value_at(vals, 1), Some(b))) && C::resolves(value_at(vals, 2), None),
        }
    }

    fn resolve_values(option_values: &Vec<BlueprintOptionValue>) -> (r: Option<(A, B, C)>) {
        let a = match A::resolve_value(nth_value(option_values, 0)) { Some(a) => a, None => { return None; } };
        let b = match B::resolve_value(nth_value(option_values, 1)) { Some(b) => b, None => { return None; } };
        let c = match C::resolve_value(nth_value(option_values, 2)) { Some(c) => c, None => { return None; } };
        Some((a, b, c))
    }
}

/// What a command answers with.
#[derive(Debug, Clone)]
pub struct BlueprintCommandResponse<E> {
    pub tts: bool,
    pub ephemeral: bool,
    pub content: Option<String>,
    pub embeds: Vec<E>,
}

impl<E> BlueprintCommandResponse<E> {
    /// A plain message.
    pub fn new(content: String) -> (r: Self)
        ensures
            !r.tts && !r.ephemeral && r.embeds@.len() == 0,
            r.content matches Some(c) && c@ == content@,
    {
        BlueprintCommandResponse { tts: false, ephemeral: false, content: Some(content), embeds: Vec::new() }
    }

    /// A message only its recipient sees.
    pub fn new_ephemeral(content: String) -> (r: Self)
        ensures
            !r.tts && r.ephemeral && r.embeds@.len() == 0,
            r.content matches Some(c) && c@ == content@,
    {
        BlueprintCommandResponse { tts: false, ephemeral: true, content: Some(content), embeds: Vec::new() }
    }

    pub fn with_embeds(embeds: Vec<E>) -> (r: Self)
        ensures
            !r.tts && !r.ephemeral && r.content is None && r.embeds@ == embeds@,
    {
        BlueprintCommandResponse { tts: false, ephemeral: false, content: None, embeds }
    }

    pub fn with_ephemeral_embeds(embeds: Vec<E>) -> (r: Self)
        ensures
            !r.tts && r.ephemeral && r.content is None && r.embeds@ == embeds@,
    {
        BlueprintCommandResponse { tts: false, ephemeral: true, content: None, embeds }
    }
}

impl<E> Default for BlueprintCommandResponse<E> {
    fn default() -> (r: Self)
        ensures
            !r.tts && !r.ephemeral && r.content is None && r.embeds@.len() == 0,
    {
        BlueprintCommandResponse { tts: false, ephemeral: false, content: None, embeds: Vec::new() }
    }
}

} // verus!
