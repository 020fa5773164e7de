use vstd::prelude::*;

verus! {

/// The symbols that decorate replies, chosen per type.
pub trait Style {
    fn err() -> &'static str;

    fn ok() -> &'static str;

    fn bullet() -> &'static str;

    fn info() -> &'static str;

    fn arrow() -> &'static str;
}

/// The symbols that decorate replies, chosen per value.
pub trait DynStyle {
    fn err(&self) -> &'static str;

    fn ok(&self) -> &'static str;

    fn bullet(&self) -> &'static str;

    fn info(&self) -> &'static str;

    fn arrow(&self) -> &'static str;
}

/// The default symbols.
pub struct DefaultStyle;

/// The default symbols, for use behind `dyn DynStyle`.
pub struct DefaultDynStyle;

impl Style for DefaultStyle {
    fn err() -> &'static str {
        "✕"
    }

    fn ok() -> &'static str {
        "✓"
    }

    fn bullet() -> &'static str {
        "⇛"
    }

    fn info() -> &'static str {
        "⇒"
    }

    fn arrow() -> &'static str {
        "⨠"
    }
}

impl DynStyle for DefaultStyle {
    fn err(&self) -> &'static str {
        <DefaultStyle as Style>::err()
    }

    fn ok(&self) -> &'static str {
        <DefaultStyle as Style>::ok()
    }

    fn bullet(&self) -> &'static str {
        <DefaultStyle as Style>::bullet()
    }

    fn info(&self) -> &'static str {
        <DefaultStyle as Style>::info()
    }

    fn arrow(&self) -> &'static str {
        <DefaultStyle as Style>::arrow()
    }
}

impl DynStyle for DefaultDynStyle {
    fn err(&self) -> &'static str {
        <DefaultStyle as Style>::err()
    }

    fn ok(&self) -> &'static str {
        <DefaultStyle as Style>::ok()
    }

    fn bullet(&self) -> &'static str {
        <DefaultStyle as Style>::bullet()
    }

    fn info(&self) -> &'static str {
        <DefaultStyle as Style>::info()
    }

    fn arrow(&self) -> &'static str {
        <DefaultStyle as Style>::arrow()
    }
}

} // verus!
