//! A three-component version number (`major.minor.patch`) in which each
//! component is either a concrete non-negative integer or a wildcard `*`.
//!
//! A [`Version`] is parsed from a dot-delimited string, rendered back to a
//! string, read and written component by component, and "bumped": bumping a
//! component increments it and resets the less significant components to
//! zero where they hold concrete numbers. Parsing is total: a component that
//! is not a plain decimal number (or is absent) becomes a wildcard.

use vstd::prelude::*;

pub mod text;

verus! {

/// One slot of a version number: a concrete number or the wildcard `*`.
#[derive(Debug, Clone, Copy, PartialEq, Eq, Structural)]
pub enum VersionPart {
    Num(usize),
    Wildcard,
}

/// A version number made of three [`VersionPart`]s.
///
/// No cross-field invariant ties the components together: a wildcard major
/// beside a numeric minor is permitted and stands for partial information.
#[derive(Debug, Clone, Copy, PartialEq, Eq, Structural)]
pub struct Version {
    pub major: VersionPart,
    pub minor: VersionPart,
    pub patch: VersionPart,
}

/// The version that bumping the major component yields: if major is a
/// number it is incremented and each of minor and patch is reset to zero
/// where it is itself a number; if major is a wildcard nothing changes.
pub open spec fn spec_bump_major(v: Version) -> Version {
    match v.major {
        VersionPart::Num(m) => (Version {
            major: VersionPart::Num((m + 1) as usize),
            minor: if v.minor is Num {
                VersionPart::Num(0)
            } else {
                v.minor
            },
            patch: if v.patch is Num {
                VersionPart::Num(0)
            } else {
                v.patch
            },
        }),
        VersionPart::Wildcard => v,
    }
}

/// The version that bumping the minor component yields: minor is
/// incremented where it is a number, and patch is reset to zero where it is
/// a number, whether or not minor was. Major is untouched. Unlike bumping
/// major, the patch reset is not gated on minor being a number; that
/// asymmetry is deliberate, kept from the behavior this type preserves.
pub open spec fn spec_bump_minor(v: Version) -> Version {
    Version {
        major: v.major,
        minor: match v.minor {
            VersionPart::Num(m) => VersionPart::Num((m + 1) as usize),
            VersionPart::Wildcard => v.minor,
        },
        patch: if v.patch is Num {
            VersionPart::Num(0)
        } else {
            v.patch
        },
    }
}

/// The version that bumping the patch component yields: patch is
/// incremented where it is a number; nothing else changes.
pub open spec fn spec_bump_patch(v: Version) -> Version {
    Version {
        major: v.major,
        minor: v.minor,
        patch: match v.patch {
            VersionPart::Num(p) => VersionPart::Num((p + 1) as usize),
            VersionPart::Wildcard => v.patch,
        },
    }
}

/// The version that a string denotes: the fields before the first,
/// second, and third dot (or the end of the string) give major, minor,
/// and patch through [`text::parse_part`]; a missing field is a wildcard,
/// and anything after the third dot is ignored.
pub open spec fn spec_parse(s: Seq<char>) -> Version {
    let n = s.len() as int;
    let d1 = text::dot_from(s, 0);
    let d2 = text::dot_from(s, d1 + 1);
    let d3 = text::dot_from(s, d2 + 1);
    Version {
        major: text::parse_part(s.subrange(0, d1)),
        minor: if d1 < n {
            text::parse_part(s.subrange(d1 + 1, d2))
        } else {
            VersionPart::Wildcard
        },
        patch: if d1 < n && d2 < n {
            text::parse_part(s.subrange(d2 + 1, d3))
        } else {
            VersionPart::Wildcard
        },
    }
}

/// The textual form of a version: the three components' texts joined by
/// literal dots.
pub open spec fn spec_render(v: Version) -> Seq<char> {
    text::part_chars(v.major) + seq!['.'] + text::part_chars(v.minor) + seq!['.']
        + text::part_chars(v.patch)
}

impl VersionPart {
    /// The textual form of this component: decimal digits for a number,
    /// `*` for a wildcard.
    pub fn to_string(&self) -> (r: String)
        ensures
            r@ == text::part_chars(*self),
    {
        let mut out = String::new();
        text::push_part(&mut out, self);
        proof {
            assert(out@ =~= text::part_chars(*self));
        }
        out
    }
}

impl Version {
    /// A version with every component unspecified: `*.*.*`.
    pub fn new() -> (v: Version)
        ensures
            v == (Version {
                major: VersionPart::Wildcard,
                minor: VersionPart::Wildcard,
                patch: VersionPart::Wildcard,
            }),
    {
        Version { major: VersionPart::Wildcard, minor: VersionPart::Wildcard, patch: VersionPart::Wildcard }
    }

    /// The version that `s` denotes, as [`spec_parse`] describes.
    ///
    /// Parsing is total: there is no input on which it fails. A field
    /// that is empty, absent, not all digits, or too large for `usize`
    /// becomes a wildcard.
    pub fn parse(s: &str) -> (v: Version)
        ensures
            v == spec_parse(s@),
    {
        let len = s.unicode_len();
        let d1 = text::find_dot(s, 0);
        let major = text::parse_component(s, 0, d1);
        let mut minor = VersionPart::Wildcard;
        let mut patch = VersionPart::Wildcard;
        if d1 < len {
            let d2 = text::find_dot(s, d1 + 1);
            minor = text::parse_component(s, d1 + 1, d2);
            if d2 < len {
                let d3 = text::find_dot(s, d2 + 1);
                patch = text::parse_component(s, d2 + 1, d3);
            }
        }
        Version { major, minor, patch }
    }

    /// The textual form `major.minor.patch`, as [`spec_render`]
    /// describes: each component as decimal digits or `*`, joined by
    /// literal dots.
    pub fn to_string(&self) -> (r: String)
        ensures
            r@ == spec_render(*self),
    {
        let mut out = String::new();
        text::push_part(&mut out, &self.major);
        out.append(".");
        text::push_part(&mut out, &self.minor);
        out.append(".");
        text::push_part(&mut out, &self.patch);
        proof {
            reveal_strlit(".");
            assert(out@ =~= spec_render(*self));
        }
        out
    }

    /// The major component.
    pub fn major(&self) -> (r: &VersionPart)
        ensures
            *r == self.major,
    {
        &self.major
    }

    /// Replaces the major component; the other components are untouched.
    pub fn set_major(&mut self, value: VersionPart)
        ensures
            final(self).major == value,
            final(self).minor == old(self).minor,
            final(self).patch == old(self).patch,
    {
        self.major = value;
    }

    /// The minor component.
    pub fn minor(&self) -> (r: &VersionPart)
        ensures
            *r == self.minor,
    {
        &self.minor
    }

    /// Replaces the minor component; the other components are untouched.
    pub fn set_minor(&mut self, value: VersionPart)
        ensures
            final(self).minor == value,
            final(self).major == old(self).major,
            final(self).patch == old(self).patch,
    {
        self.minor = value;
    }

    /// The patch component.
    pub fn patch(&self) -> (r: &VersionPart)
        ensures
            *r == self.patch,
    {
        &self.patch
    }

    /// Replaces the patch component; the other components are untouched.
    pub fn set_patch(&mut self, value: VersionPart)
        ensures
            final(self).patch == value,
            final(self).major == old(self).major,
            final(self).minor == old(self).minor,
    {
        self.patch = value;
    }

    /// Bumps the major component as [`spec_bump_major`] describes.
    ///
    /// A numeric major must be below `usize::MAX` so that the increment
    /// fits; no other input is excluded.
    pub fn bump_major(&mut self)
        requires
            old(self).major matches VersionPart::Num(m) ==> m < usize::MAX,
        ensures
            *final(self) == spec_bump_major(*old(self)),
    {
        if let VersionPart::Num(major) = self.major {
            self.major = VersionPart::Num(major + 1);
            if let VersionPart::Num(_) = self.minor {
                self.minor = VersionPart::Num(0);
            }
            if let VersionPart::Num(_) = self.patch {
                self.patch = VersionPart::Num(0);
            }
        }
    }

    /// Bumps the minor component as [`spec_bump_minor`] describes.
    ///
    /// A numeric minor must be below `usize::MAX` so that the increment
    /// fits; no other input is excluded.
    pub fn bump_minor(&mut self)
        requires
            old(self).minor matches VersionPart::Num(m) ==> m < usize::MAX,
        ensures
            *final(self) == spec_bump_minor(*old(self)),
    {
        if let VersionPart::Num(minor) = self.minor {
            self.minor = VersionPart::Num(minor + 1);
        }
        if let VersionPart::Num(_) = self.patch {
            self.patch = VersionPart::Num(0);
        }
    }

    /// Bumps the patch component as [`spec_bump_patch`] describes.
    ///
    /// A numeric patch must be below `usize::MAX` so that the increment
    /// fits; no other input is excluded.
    pub fn bump_patch(&mut self)
        requires
            old(self).patch matches VersionPart::Num(p) ==> p < usize::MAX,
        ensures
            *final(self) == spec_bump_patch(*old(self)),
    {
        if let VersionPart::Num(patch) = self.patch {
            self.patch = VersionPart::Num(patch + 1);
        }
    }
}

/// Parsing is the inverse of rendering on fully concrete versions: a
/// version whose three components are all numbers comes back unchanged
/// from parsing its own textual form.
pub proof fn lemma_parse_render_roundtrip(v: Version)
    requires
        v.major is Num,
        v.minor is Num,
        v.patch is Num,
    ensures
        spec_parse(spec_render(v)) == v,
{
    let a = v.major->0;
    let b = v.minor->0;
    let c = v.patch->0;
    let ca = text::digits_of(a as int);
    let cb = text::digits_of(b as int);
    let cc = text::digits_of(c as int);
    let s = spec_render(v);
    text::lemma_digits_of_digits(a as int);
    text::lemma_digits_of_digits(b as int);
    text::lemma_digits_of_digits(c as int);
    text::lemma_digits_of_value(a as int);
    text::lemma_digits_of_value(b as int);
    text::lemma_digits_of_value(c as int);
    let la = ca.len() as int;
    let lb = cb.len() as int;
    assert(s =~= ca + seq!['.'] + cb + seq!['.'] + cc);
    assert(forall|k: int| 0 <= k < la ==> s[k] == ca[k]);
    assert(s[la] == '.');
    assert(forall|k: int| la + 1 <= k < la + 1 + lb ==> s[k] == cb[k - la - 1]);
    assert(s[la + 1 + lb] == '.');
    assert(forall|k: int| la + lb + 2 <= k < s.len() ==> s[k] == cc[k - la - lb - 2]);
    assert(forall|k: int| 0 <= k < la ==> s[k] != '.');
    assert(forall|k: int| la + 1 <= k < la + 1 + lb ==> s[k] != '.');
    assert(forall|k: int| la + lb + 2 <= k < s.len() ==> s[k] != '.');
    text::lemma_dot_from_found(s, 0, la);
    text::lemma_dot_from_found(s, la + 1, la + 1 + lb);
    text::lemma_dot_from_found(s, la + lb + 2, s.len() as int);
    assert(s.subrange(0, la) =~= ca);
    assert(s.subrange(la + 1, la + 1 + lb) =~= cb);
    assert(s.subrange(la + lb + 2, s.len() as int) =~= cc);
}

/// Writing a component and then reading it gives back exactly the value
/// written, for numbers and wildcards alike, and touches no other
/// component: the identity that ties each setter to its getter.
pub proof fn lemma_set_then_get(v: Version, p: VersionPart)
    ensures
        (Version { major: p, minor: v.minor, patch: v.patch }).major == p,
        (Version { major: v.major, minor: p, patch: v.patch }).minor == p,
        (Version { major: v.major, minor: v.minor, patch: p }).patch == p,
{
}

/// What equality of components means: two components are equal exactly
/// when both are wildcards, or both are numbers with equal values.
pub proof fn lemma_part_equality(a: VersionPart, b: VersionPart)
    ensures
        a == b <==> match (a, b) {
            (VersionPart::Num(x), VersionPart::Num(y)) => x == y,
            (VersionPart::Wildcard, VersionPart::Wildcard) => true,
            _ => false,
        },
{
}

impl Default for Version {
    /// The same all-wildcard version that [`Version::new`] yields.
    fn default() -> (v: Version)
        ensures
            v == (Version {
                major: VersionPart::Wildcard,
                minor: VersionPart::Wildcard,
                patch: VersionPart::Wildcard,
            }),
    {
        Version::new()
    }
}

} // verus!
