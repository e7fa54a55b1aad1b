//! The source ranges of parsed items: from the start of their first token to the end of their
//! last one.

use vstd::prelude::*;
use crate::position::Location;
use super::token::{Comma, NamedToken, Numeric, TokenTree};
use super::list::{List, MaybeUnknown, Repeat};
use super::rule::Selector;
use super::property::ImportRule;
use super::media::{MediaAndKeyword, MediaFeature, MediaOrKeyword, MediaQueryList, MediaType};
use super::sheet::{FontFaceRule, Keyframe, KeyframesRule, MediaRule, Rule, RuleOrProperty, StyleRule};

verus! {

pub open spec fn span(a: Location, b: Location) -> Location {
    Location { start: a.start, end: b.end }
}

impl List<TokenTree> {
    pub open spec fn spec_location(&self) -> Location {
        span(self@[0].spec_location(), self@.last().spec_location())
    }

    pub fn location(&self) -> (r: Location)
        ensures
            r == self.spec_location(),
    {
        Location { start: self.first().location().start, end: self.last().location().end }
    }
}

impl Selector {
    pub open spec fn spec_location(&self) -> Location {
        match self {
            Selector::Unknown(x) => x.spec_location(),
            Selector::Universal(x) => x.location,
            Selector::TagName(x) => x.location,
            Selector::Id(x) => x.location,
            Selector::Class(op, x) => span(op.location, x.location),
            Selector::Attribute(x) => x.spec_location(),
            Selector::NextSibling(x) => x.location,
            Selector::Child(x) => x.location,
            Selector::Column(x, y) => span(x.location, y.location),
            Selector::SubsequentSibling(x) => x.location,
            Selector::Namespace(x) => x.location,
            Selector::PseudoClass(op, x) => span(op.location, x.spec_location()),
            Selector::PseudoElement(op, _, x) => span(op.location, x.spec_location()),
        }
    }

    pub fn location(&self) -> (r: Location)
        ensures
            r == self.spec_location(),
    {
        match self {
            Selector::Unknown(x) => x.location(),
            Selector::Universal(x) => x.location,
            Selector::TagName(x) => x.location,
            Selector::Id(x) => x.location,
            Selector::Class(op, x) => Location { start: op.location.start, end: x.location.end },
            Selector::Attribute(x) => x.location(),
            Selector::NextSibling(x) => x.location,
            Selector::Child(x) => x.location,
            Selector::Column(x, y) => Location { start: x.location.start, end: y.location.end },
            Selector::SubsequentSibling(x) => x.location,
            Selector::Namespace(x) => x.location,
            Selector::PseudoClass(op, x) => Location {
                start: op.location.start,
                end: x.location().end,
            },
            Selector::PseudoElement(op, _, x) => Location {
                start: op.location.start,
                end: x.location().end,
            },
        }
    }
}

impl List<Selector> {
    pub open spec fn spec_location(&self) -> Location {
        span(self@[0].spec_location(), self@.last().spec_location())
    }

    pub fn location(&self) -> (r: Location)
        ensures
            r == self.spec_location(),
    {
        Location { start: self.first().location().start, end: self.last().location().end }
    }
}

impl Repeat<List<Selector>, Comma> {
    /// From the first selector list to the separator after the last one, or to the end of that
    /// list when it has no separator.
    pub open spec fn spec_location(&self) -> Location {
        let last = self@.last();
        Location {
            start: self@[0].0.spec_location().start,
            end: match last.1 {
                Some(c) => c.location.end,
                None => last.0.spec_location().end,
            },
        }
    }

    pub fn location(&self) -> (r: Location)
        ensures
            r == self.spec_location(),
    {
        let items = self.as_vec();
        let start = items[0].0.location().start;
        let last = &items[items.len() - 1];
        let end = match &last.1 {
            Some(c) => c.location.end,
            None => last.0.location().end,
        };
        Location { start, end }
    }
}

/// The range of the trailing tokens' last token, or of the value and its trailing tokens.
impl MaybeUnknown<NamedToken> {
    pub open spec fn spec_location(&self) -> Option<Location> {
        match self {
            MaybeUnknown::Unknown(x) => if x@.len() == 0 {
                None
            } else {
                Some(x@.last().spec_location())
            },
            MaybeUnknown::Normal(x, t) => Some(
                Location {
                    start: x.location.start,
                    end: if t@.len() == 0 { x.location.end } else { t@.last().spec_location().end },
                },
            ),
        }
    }

    pub fn location(&self) -> (r: Option<Location>)
        ensures
            r == self.spec_location(),
    {
        match self {
            MaybeUnknown::Unknown(x) => if x.len() == 0 {
                None
            } else {
                Some(x[x.len() - 1].location())
            },
            MaybeUnknown::Normal(x, t) => Some(
                Location {
                    start: x.location.start,
                    end: if t.len() == 0 { x.location.end } else { t[t.len() - 1].location().end },
                },
            ),
        }
    }
}

impl MaybeUnknown<Numeric> {
    pub open spec fn spec_location(&self) -> Option<Location> {
        match self {
            MaybeUnknown::Unknown(x) => if x@.len() == 0 {
                None
            } else {
                Some(x@.last().spec_location())
            },
            MaybeUnknown::Normal(x, t) => Some(
                Location {
                    start: x.location.start,
                    end: if t@.len() == 0 { x.location.end } else { t@.last().spec_location().end },
                },
            ),
        }
    }

    pub fn location(&self) -> (r: Option<Location>)
        ensures
            r == self.spec_location(),
    {
        match self {
            MaybeUnknown::Unknown(x) => if x.len() == 0 {
                None
            } else {
                Some(x[x.len() - 1].location())
            },
            MaybeUnknown::Normal(x, t) => Some(
                Location {
                    start: x.location.start,
                    end: if t.len() == 0 { x.location.end } else { t[t.len() - 1].location().end },
                },
            ),
        }
    }
}

impl MediaType {
    pub open spec fn spec_location(&self) -> Location {
        match self {
            MediaType::Unknown(x) => x.location,
            MediaType::All(x) => x.location,
            MediaType::Screen(x) => x.location,
            MediaType::Print(x) => x.location,
        }
    }

    pub fn location(&self) -> (r: Location)
        ensures
            r == self.spec_location(),
    {
        match self {
            MediaType::Unknown(x) => x.location,
            MediaType::All(x) => x.location,
            MediaType::Screen(x) => x.location,
            MediaType::Print(x) => x.location,
        }
    }
}

impl MediaFeature {
    pub open spec fn spec_location(&self) -> Location {
        match self {
            MediaFeature::Unknown(x) => x.spec_location(),
            MediaFeature::Condition(k, colon, v) => Location {
                start: k.location.start,
                end: if v@.len() == 0 { colon.location.end } else { v@.last().spec_location().end },
            },
        }
    }

    pub fn location(&self) -> (r: Location)
        ensures
            r == self.spec_location(),
    {
        match self {
            MediaFeature::Unknown(x) => x.location(),
            MediaFeature::Condition(k, colon, v) => Location {
                start: k.location.start,
                end: if v.len() == 0 { colon.location.end } else { v[v.len() - 1].location().end },
            },
        }
    }
}

impl MediaAndKeyword {
    pub open spec fn spec_location(&self) -> Option<Location> {
        match self {
            MediaAndKeyword::Absent => None,
            MediaAndKeyword::And(x) => Some(x.location),
        }
    }
}

impl MediaOrKeyword {
    pub open spec fn spec_location(&self) -> Option<Location> {
        match self {
            MediaOrKeyword::Absent => None,
            MediaOrKeyword::Or(x) => Some(x.location),
            MediaOrKeyword::Comma(x) => Some(x.location),
        }
    }
}

impl MediaQueryList {
    /// A media query list has a range when none of the lists it ends or starts with is empty.
    pub open spec fn located(&self) -> bool
        decreases self,
    {
        match self {
            MediaQueryList::Unknown(x) => x@.len() > 0,
            MediaQueryList::And(x) => x@.len() > 0 && x@[0].0.located() && (x@.last().1 is Absent
                ==> x@.last().0.located()),
            MediaQueryList::Or(x) => x@.len() > 0 && x@[0].0.located() && (x@.last().1 is Absent
                ==> x@.last().0.located()),
            MediaQueryList::Not(_, x) => x.located(),
            MediaQueryList::Only(_, x) => x.located(),
            _ => true,
        }
    }

    pub open spec fn spec_location(&self) -> Location
        decreases self,
    {
        match self {
            MediaQueryList::Unknown(x) => span(x@[0].spec_location(), x@.last().spec_location()),
            MediaQueryList::Sub(x) => x.spec_location(),
            MediaQueryList::And(x) => if x@.len() == 0 {
                arbitrary()
            } else {
                Location {
                    start: x@[0].0.spec_location().start,
                    end: match x@.last().1 {
                        MediaAndKeyword::Absent => x@.last().0.spec_location().end,
                        MediaAndKeyword::And(k) => k.location.end,
                    },
                }
            },
            MediaQueryList::Or(x) => if x@.len() == 0 {
                arbitrary()
            } else {
                Location {
                    start: x@[0].0.spec_location().start,
                    end: match x@.last().1 {
                        MediaOrKeyword::Absent => x@.last().0.spec_location().end,
                        MediaOrKeyword::Or(k) => k.location.end,
                        MediaOrKeyword::Comma(k) => k.location.end,
                    },
                }
            },
            MediaQueryList::Not(kw, x) => span(kw.location, x.spec_location()),
            MediaQueryList::Only(kw, x) => span(kw.location, x.spec_location()),
            MediaQueryList::MediaType(x) => x.spec_location(),
            MediaQueryList::MediaFeature(x) => x.spec_location(),
        }
    }

    /// Whether `location` can be taken.
    pub fn has_location(&self) -> (r: bool)
        ensures
            r == self.located(),
        decreases self,
    {
        match self {
            MediaQueryList::Unknown(x) => x.len() > 0,
            MediaQueryList::And(x) => {
                if x.len() == 0 {
                    return false;
                }
                let last = &x[x.len() - 1];
                x[0].0.has_location() && (!matches!(last.1, MediaAndKeyword::Absent)
                    || last.0.has_location())
            },
            MediaQueryList::Or(x) => {
                if x.len() == 0 {
                    return false;
                }
                let last = &x[x.len() - 1];
                x[0].0.has_location() && (!matches!(last.1, MediaOrKeyword::Absent)
                    || last.0.has_location())
            },
            MediaQueryList::Not(_, x) => x.has_location(),
            MediaQueryList::Only(_, x) => x.has_location(),
            _ => true,
        }
    }

    pub fn location(&self) -> (r: Location)
        requires
            self.located(),
        ensures
            r == self.spec_location(),
        decreases self,
    {
        match self {
            MediaQueryList::Unknown(x) => Location {
                start: x[0].location().start,
                end: x[x.len() - 1].location().end,
            },
            MediaQueryList::Sub(x) => x.location(),
            MediaQueryList::And(x) => {
                let last = &x[x.len() - 1];
                let end = match &last.1 {
                    MediaAndKeyword::Absent => last.0.location().end,
                    MediaAndKeyword::And(k) => k.location.end,
                };
                Location { start: x[0].0.location().start, end }
            },
            MediaQueryList::Or(x) => {
                let last = &x[x.len() - 1];
                let end = match &last.1 {
                    MediaOrKeyword::Absent => last.0.location().end,
                    MediaOrKeyword::Or(k) => k.location.end,
                    MediaOrKeyword::Comma(k) => k.location.end,
                };
                Location { start: x[0].0.location().start, end }
            },
            MediaQueryList::Not(kw, x) => Location { start: kw.location.start, end: x.location().end },
            MediaQueryList::Only(kw, x) => Location {
                start: kw.location.start,
                end: x.location().end,
            },
            MediaQueryList::MediaType(x) => x.location(),
            MediaQueryList::MediaFeature(x) => x.location(),
        }
    }
}

impl ImportRule {
    /// From the at-keyword to the semicolon, or to the last token read when there is none.
    pub open spec fn spec_location(&self) -> Location {
        Location {
            start: self.at_import.location.start,
            end: match self.semicolon {
                Some(s) => s.location.end,
                None => if self.condition@.len() > 0 {
                    self.condition@.last().spec_location().end
                } else {
                    match self.url.spec_location() {
                        Some(l) => l.end,
                        None => self.at_import.location.end,
                    }
                },
            },
        }
    }

    pub fn location(&self) -> (r: Location)
        ensures
            r == self.spec_location(),
    {
        let end = match &self.semicolon {
            Some(s) => s.location.end,
            None => if self.condition.len() > 0 {
                self.condition[self.condition.len() - 1].location().end
            } else {
                match self.url.location() {
                    Some(l) => l.end,
                    None => self.at_import.location.end,
                }
            },
        };
        Location { start: self.at_import.location.start, end }
    }
}

impl StyleRule {
    pub open spec fn spec_location(&self) -> Location {
        Location {
            start: self.selector.spec_location().start,
            end: match self.brace {
                None => self.selector.spec_location().end,
                Some(x) => x.spec_location().end,
            },
        }
    }

    pub fn location(&self) -> (r: Location)
        ensures
            r == self.spec_location(),
    {
        let sel = self.selector.location();
        let end = match &self.brace {
            None => sel.end,
            Some(x) => x.location().end,
        };
        Location { start: sel.start, end }
    }
}

impl MediaRule {
    pub open spec fn located(&self) -> bool {
        self.body is None && self.list is Some ==> self.list->0.located()
    }

    pub open spec fn spec_location(&self) -> Location {
        Location {
            start: self.at_media.location.start,
            end: match self.body {
                None => match self.list {
                    None => self.at_media.location.end,
                    Some(x) => x.spec_location().end,
                },
                Some(x) => x.spec_location().end,
            },
        }
    }

    pub fn location(&self) -> (r: Location)
        requires
            self.located(),
        ensures
            r == self.spec_location(),
    {
        let end = match &self.body {
            None => match &self.list {
                None => self.at_media.location.end,
                Some(x) => x.location().end,
            },
            Some(x) => x.location().end,
        };
        Location { start: self.at_media.location.start, end }
    }
}

impl FontFaceRule {
    pub open spec fn spec_location(&self) -> Location {
        Location {
            start: self.at_font_face.location.start,
            end: match self.body {
                None => self.at_font_face.location.end,
                Some(x) => x.spec_location().end,
            },
        }
    }

    pub fn location(&self) -> (r: Location)
        ensures
            r == self.spec_location(),
    {
        let end = match &self.body {
            None => self.at_font_face.location.end,
            Some(x) => x.location().end,
        };
        Location { start: self.at_font_face.location.start, end }
    }
}

impl KeyframesRule {
    pub open spec fn spec_location(&self) -> Location {
        Location {
            start: self.at_keyframes.location.start,
            end: match self.body {
                None => match self.name.spec_location() {
                    Some(l) => l.end,
                    None => self.at_keyframes.location.end,
                },
                Some(x) => x.spec_location().end,
            },
        }
    }

    pub fn location(&self) -> (r: Location)
        ensures
            r == self.spec_location(),
    {
        let end = match &self.body {
            None => match self.name.location() {
                Some(l) => l.end,
                None => self.at_keyframes.location.end,
            },
            Some(x) => x.location().end,
        };
        Location { start: self.at_keyframes.location.start, end }
    }
}

impl Keyframe {
    /// A keyframe has a range when its progress, or the tokens read in its place, do.
    pub open spec fn located(&self) -> bool {
        match self {
            Keyframe::Named { progress, .. } => progress.spec_location() is Some,
            Keyframe::Percentage { progress, .. } => progress.spec_location() is Some,
            Keyframe::Unknown(x) => x@.len() > 0,
        }
    }

    pub open spec fn spec_location(&self) -> Location {
        match self {
            Keyframe::Named { progress, body } => Location {
                start: progress.spec_location()->0.start,
                end: match body {
                    None => progress.spec_location()->0.end,
                    Some(x) => x.spec_location().end,
                },
            },
            Keyframe::Percentage { progress, body } => Location {
                start: progress.spec_location()->0.start,
                end: match body {
                    None => progress.spec_location()->0.end,
                    Some(x) => x.spec_location().end,
                },
            },
            Keyframe::Unknown(x) => span(x@[0].spec_location(), x@.last().spec_location()),
        }
    }

    pub fn location(&self) -> (r: Location)
        requires
            self.located(),
        ensures
            r == self.spec_location(),
    {
        match self {
            Keyframe::Named { progress, body } => {
                let p = progress.location().unwrap();
                let end = match body {
                    None => p.end,
                    Some(x) => x.location().end,
                };
                Location { start: p.start, end }
            },
            Keyframe::Percentage { progress, body } => {
                let p = progress.location().unwrap();
                let end = match body {
                    None => p.end,
                    Some(x) => x.location().end,
                };
                Location { start: p.start, end }
            },
            Keyframe::Unknown(x) => Location {
                start: x[0].location().start,
                end: x[x.len() - 1].location().end,
            },
        }
    }
}

impl Rule {
    pub open spec fn located(&self) -> bool {
        match self {
            Rule::Media(x) => x.located(),
            _ => true,
        }
    }

    /// The range of the rule; an unknown at-rule with no tokens after its keyword covers the
    /// keyword only.
    pub open spec fn spec_location(&self) -> Location {
        match self {
            Rule::Unknown(x) => x.spec_location(),
            Rule::Style(x) => x.spec_location(),
            Rule::Import(x) => x.spec_location(),
            Rule::Media(x) => x.spec_location(),
            Rule::FontFace(x) => x.spec_location(),
            Rule::Keyframes(x) => x.spec_location(),
            Rule::UnknownAtRule(kw, x) => Location {
                start: kw.location.start,
                end: if x@.len() == 0 { kw.location.end } else { x@.last().spec_location().end },
            },
        }
    }

    pub fn location(&self) -> (r: Location)
        requires
            self.located(),
        ensures
            r == self.spec_location(),
    {
        match self {
            Rule::Unknown(x) => x.location(),
            Rule::Style(x) => x.location(),
            Rule::Import(x) => x.location(),
            Rule::Media(x) => x.location(),
            Rule::FontFace(x) => x.location(),
            Rule::Keyframes(x) => x.location(),
            Rule::UnknownAtRule(kw, x) => Location {
                start: kw.location.start,
                end: if x.len() == 0 { kw.location.end } else { x[x.len() - 1].location().end },
            },
        }
    }
}

impl RuleOrProperty {
    pub open spec fn located(&self) -> bool {
        match self {
            RuleOrProperty::Rule(x) => x.located(),
            RuleOrProperty::Property(_) => true,
        }
    }

    pub open spec fn spec_location(&self) -> Location {
        match self {
            RuleOrProperty::Rule(x) => x.spec_location(),
            RuleOrProperty::Property(x) => x.spec_location(),
        }
    }

    pub fn location(&self) -> (r: Location)
        requires
            self.located(),
        ensures
            r == self.spec_location(),
    {
        match self {
            RuleOrProperty::Rule(x) => x.location(),
            RuleOrProperty::Property(x) => x.location(),
        }
    }
}

} // verus!
