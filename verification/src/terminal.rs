//! The part of the configuration that a terminal reads.
//!
//! A [`TermConfig`] is a snapshot of the settings that the terminal model
//! asks for: how many lines to keep, which hyperlink rules to apply, and
//! which colors to use. The one decision in it is the choice of the palette:
//! a color scheme that is named and known goes first, colors given directly
//! come second, and the built-in palette is what remains.

use vstd::prelude::*;

verus! {

/// A rule that turns matching text into a hyperlink: the pattern to look
/// for and the format of the link.
#[derive(Debug, Clone, PartialEq, Eq)]
pub struct HyperlinkRule {
    pub regex: String,
    pub format: String,
}

/// The mathematical content of a [`HyperlinkRule`].
pub struct RuleView {
    pub regex: Seq<char>,
    pub format: Seq<char>,
}

impl View for HyperlinkRule {
    type V = RuleView;

    open spec fn view(&self) -> RuleView {
        RuleView { regex: self.regex@, format: self.format@ }
    }
}

/// The contents of a list of rules.
pub open spec fn rule_views(rules: Seq<HyperlinkRule>) -> Seq<RuleView> {
    rules.map_values(|r: HyperlinkRule| r@)
}

/// Where the colors of the terminal come from.
#[derive(Debug, PartialEq, Eq)]
pub enum PaletteChoice<'a, P> {
    /// The color scheme that the configuration names.
    Scheme(&'a P),
    /// The colors that the configuration gives directly.
    Colors(&'a P),
    /// The built-in palette.
    Default,
}

/// The mathematical content of a [`TermConfig`].
pub struct TermConfigView<P> {
    pub generation: usize,
    pub scrollback_lines: usize,
    pub enable_csi_u_key_encoding: bool,
    pub hyperlink_rules: Seq<RuleView>,
    /// The name of the color scheme to use, if one is chosen.
    pub color_scheme: Option<Seq<char>>,
    /// The color schemes that are known, by name.
    pub color_schemes: Map<Seq<char>, P>,
    /// Colors given directly.
    pub colors: Option<P>,
}

impl<P> TermConfigView<P> {
    /// The palette to use: the named scheme if it is known, else the colors
    /// given directly, else the built-in palette.
    pub open spec fn palette(self) -> PaletteChoice<'static, P> {
        if self.color_scheme is Some && self.color_schemes.dom().contains(
            self.color_scheme->Some_0,
        ) {
            PaletteChoice::Scheme(&self.color_schemes[self.color_scheme->Some_0])
        } else if self.colors is Some {
            PaletteChoice::Colors(&self.colors->Some_0)
        } else {
            PaletteChoice::Default
        }
    }
}

/// Whether no name occurs twice among the entries.
spec fn distinct_names<P>(entries: Seq<(String, P)>) -> bool {
    forall|i: int, j: int|
        0 <= i < j < entries.len() ==> (#[trigger] entries[i]).0@ != (#[trigger] entries[j]).0@
}

/// Whether `name` is the name of an entry.
spec fn has_name<P>(entries: Seq<(String, P)>, name: Seq<char>) -> bool {
    exists|i: int| 0 <= i < entries.len() && (#[trigger] entries[i]).0@ == name
}

/// The place of the entry with the given name.
spec fn place_of<P>(entries: Seq<(String, P)>, name: Seq<char>) -> int {
    choose|i: int| 0 <= i < entries.len() && (#[trigger] entries[i]).0@ == name
}

/// The entries as a map from name to palette.
spec fn scheme_map<P>(entries: Seq<(String, P)>) -> Map<Seq<char>, P> {
    Map::new(
        |name: Seq<char>| has_name(entries, name),
        |name: Seq<char>| entries[place_of(entries, name)].1,
    )
}

/// With distinct names, the entry of a name is found at its one place.
proof fn lemma_scheme_at<P>(entries: Seq<(String, P)>, i: int)
    requires
        distinct_names(entries),
        0 <= i < entries.len(),
    ensures
        scheme_map(entries).dom().contains(entries[i].0@),
        scheme_map(entries)[entries[i].0@] == entries[i].1,
{
    let name = entries[i].0@;
    assert(has_name(entries, name));
    let k = place_of(entries, name);
    assert(entries[k].0@ == name);
    if k < i {
        assert(entries[k].0@ != entries[i].0@);
    } else if i < k {
        assert(entries[i].0@ != entries[k].0@);
    }
}

/// Snapshot of the settings that a terminal reads.
pub struct TermConfig<P> {
    generation: usize,
    scrollback_lines: usize,
    enable_csi_u_key_encoding: bool,
    hyperlink_rules: Vec<HyperlinkRule>,
    color_scheme: Option<String>,
    color_schemes: Vec<(String, P)>,
    colors: Option<P>,
}

impl<P> View for TermConfig<P> {
    type V = TermConfigView<P>;

    closed spec fn view(&self) -> TermConfigView<P> {
        TermConfigView {
            generation: self.generation,
            scrollback_lines: self.scrollback_lines,
            enable_csi_u_key_encoding: self.enable_csi_u_key_encoding,
            hyperlink_rules: rule_views(self.hyperlink_rules@),
            color_scheme: match self.color_scheme {
                Some(name) => Some(name@),
                None => None,
            },
            color_schemes: scheme_map(self.color_schemes@),
            colors: self.colors,
        }
    }
}

impl<P> TermConfig<P> {
    /// What holds of every configuration: no color scheme is held twice.
    pub closed spec fn wf(&self) -> bool {
        distinct_names(self.color_schemes@)
    }

    /// A configuration with the given settings, without hyperlink rules and
    /// without colors of its own.
    pub fn new(generation: usize, scrollback_lines: usize, enable_csi_u_key_encoding: bool) -> (c:
        Self)
        ensures
            c.wf(),
            c@ == (TermConfigView::<P> {
                generation,
                scrollback_lines,
                enable_csi_u_key_encoding,
                hyperlink_rules: Seq::empty(),
                color_scheme: None,
                color_schemes: Map::empty(),
                colors: None,
            }),
    {
        let c = TermConfig {
            generation,
            scrollback_lines,
            enable_csi_u_key_encoding,
            hyperlink_rules: Vec::new(),
            color_scheme: None,
            color_schemes: Vec::new(),
            colors: None,
        };
        assert(c@.color_schemes =~= Map::<Seq<char>, P>::empty());
        assert(c@.hyperlink_rules =~= Seq::<RuleView>::empty());
        c
    }

    /// Replaces the hyperlink rules.
    pub fn set_hyperlink_rules(&mut self, rules: Vec<HyperlinkRule>)
        requires
            old(self).wf(),
        ensures
            final(self).wf(),
            final(self)@ == (TermConfigView { hyperlink_rules: rule_views(rules@), ..old(self)@ }),
    {
        self.hyperlink_rules = rules;
    }

    /// Chooses the color scheme to use, by name, or none.
    pub fn set_color_scheme(&mut self, name: Option<String>)
        requires
            old(self).wf(),
        ensures
            final(self).wf(),
            final(self)@ == (TermConfigView {
                color_scheme: match name {
                    Some(n) => Some(n@),
                    None => None,
                },
                ..old(self)@
            }),
    {
        self.color_scheme = name;
    }

    /// Gives colors directly, or takes them back.
    pub fn set_colors(&mut self, colors: Option<P>)
        requires
            old(self).wf(),
        ensures
            final(self).wf(),
            final(self)@ == (TermConfigView { colors, ..old(self)@ }),
    {
        self.colors = colors;
    }

    /// The place at which the scheme called `name` is held, if it is.
    fn find_scheme(&self, name: &String) -> (at: Option<usize>)
        requires
            self.wf(),
        ensures
            match at {
                Some(i) => i < self.color_schemes@.len() && self.color_schemes@[i as int].0@
                    == name@,
                None => !has_name(self.color_schemes@, name@),
            },
    {
        let mut i: usize = 0;
        while i < self.color_schemes.len()
            invariant
                i <= self.color_schemes.len(),
                forall|j: int| 0 <= j < i ==> (#[trigger] self.color_schemes@[j]).0@ != name@,
            decreases self.color_schemes.len() - i,
        {
            if self.color_schemes[i].0 == *name {
                return Some(i);
            }
            i += 1;
        }
        None
    }

    /// Makes the scheme known under `name`, in place of any scheme known
    /// under that name before.
    pub fn add_color_scheme(&mut self, name: String, palette: P)
        requires
            old(self).wf(),
        ensures
            final(self).wf(),
            final(self)@ == (TermConfigView {
                color_schemes: old(self)@.color_schemes.insert(name@, palette),
                ..old(self)@
            }),
    {
        let ghost before = self.color_schemes@;
        let ghost key = name@;
        match self.find_scheme(&name) {
            Some(i) => {
                self.color_schemes.set(i, (name, palette));
                proof {
                    let after = self.color_schemes@;
                    assert forall|n: Seq<char>| has_name(after, n) <==> has_name(before, n) by {
                        if has_name(after, n) {
                            let k = place_of(after, n);
                            assert(before[k].0@ == n);
                        }
                        if has_name(before, n) {
                            let k = place_of(before, n);
                            assert(after[k].0@ == n);
                        }
                    }
                    assert(distinct_names(after)) by {
                        assert forall|a: int, b: int| 0 <= a < b < after.len() implies (
                        #[trigger] after[a]).0@ != (#[trigger] after[b]).0@ by {
                            assert(before[a].0@ != before[b].0@);
                        }
                    }
                    assert forall|n: Seq<char>| has_name(after, n) implies scheme_map(after)[n]
                        == scheme_map(before).insert(key, palette)[n] by {
                        let k = place_of(after, n);
                        lemma_scheme_at(after, k);
                        assert(before[k].0@ == n);
                        lemma_scheme_at(before, k);
                    }
                    assert(has_name(before, key)) by {
                        assert(before[i as int].0@ == key);
                    }
                    assert(scheme_map(after) =~= scheme_map(before).insert(key, palette));
                }
            },
            None => {
                self.color_schemes.push((name, palette));
                proof {
                    let after = self.color_schemes@;
                    let last = before.len() as int;
                    assert(after[last].0@ == key);
                    assert(distinct_names(after)) by {
                        assert forall|a: int, b: int| 0 <= a < b < after.len() implies (
                        #[trigger] after[a]).0@ != (#[trigger] after[b]).0@ by {
                            if b < last {
                                assert(before[a].0@ != before[b].0@);
                            } else {
                                assert(before[a].0@ != key);
                            }
                        }
                    }
                    assert forall|n: Seq<char>| has_name(after, n) <==> has_name(before, n) || n
                        == key by {
                        if has_name(after, n) {
                            let k = place_of(after, n);
                            if k < last {
                                assert(before[k].0@ == n);
                            }
                        }
                        if has_name(before, n) {
                            let k = place_of(before, n);
                            assert(after[k].0@ == n);
                        }
                    }
                    assert forall|n: Seq<char>| has_name(after, n) implies scheme_map(after)[n]
                        == scheme_map(before).insert(key, palette)[n] by {
                        let k = place_of(after, n);
                        lemma_scheme_at(after, k);
                        if k < last {
                            assert(before[k].0@ == n);
                            lemma_scheme_at(before, k);
                        }
                    }
                    assert(scheme_map(after) =~= scheme_map(before).insert(key, palette));
                }
            },
        }
    }

    /// The generation of the configuration that this snapshot was taken of.
    pub fn generation(&self) -> (g: usize)
        ensures
            g == self@.generation,
    {
        self.generation
    }

    /// The number of lines of scrollback to keep.
    pub fn scrollback_size(&self) -> (n: usize)
        ensures
            n == self@.scrollback_lines,
    {
        self.scrollback_lines
    }

    /// Whether keys are to be encoded in the extended, unambiguous form.
    pub fn enable_csi_u_key_encoding(&self) -> (on: bool)
        ensures
            on == self@.enable_csi_u_key_encoding,
    {
        self.enable_csi_u_key_encoding
    }

    /// The hyperlink rules, with the generation they belong to.
    pub fn hyperlink_rules(&self) -> (r: (usize, Vec<HyperlinkRule>))
        ensures
            r.0 == self@.generation,
            rule_views(r.1@) == self@.hyperlink_rules,
    {
        let mut rules: Vec<HyperlinkRule> = Vec::new();
        let mut i: usize = 0;
        while i < self.hyperlink_rules.len()
            invariant
                i <= self.hyperlink_rules.len(),
                rule_views(rules@) == rule_views(self.hyperlink_rules@.take(i as int)),
            decreases self.hyperlink_rules.len() - i,
        {
            let ghost copied = rule_views(rules@);
            let rule = &self.hyperlink_rules[i];
            let regex: String = rule.regex.clone();
            let format: String = rule.format.clone();
            let copy = HyperlinkRule { regex, format };
            assert(copy@ == self.hyperlink_rules@[i as int]@);
            rules.push(copy);
            i += 1;
            assert(rule_views(rules@) =~= copied.push(copy@));
            assert(rule_views(self.hyperlink_rules@.take(i as int)) =~= rule_views(
                self.hyperlink_rules@.take(i - 1),
            ).push(self.hyperlink_rules@[i - 1]@));
        }
        assert(self.hyperlink_rules@.take(i as int) =~= self.hyperlink_rules@);
        (self.generation, rules)
    }

    /// The palette to use: the named color scheme if it is known, else the
    /// colors given directly, else the built-in palette.
    pub fn color_palette(&self) -> (choice: PaletteChoice<'_, P>)
        requires
            self.wf(),
        ensures
            choice == self@.palette(),
    {
        if let Some(name) = &self.color_scheme {
            if let Some(i) = self.find_scheme(name) {
                proof {
                    lemma_scheme_at(self.color_schemes@, i as int);
                }
                return PaletteChoice::Scheme(&self.color_schemes[i].1);
            }
        }
        match &self.colors {
            Some(colors) => PaletteChoice::Colors(colors),
            None => PaletteChoice::Default,
        }
    }
}

} // verus!
