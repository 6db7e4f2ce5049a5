//! The menu as it is configured, before the interaction starts.

use crate::item::{defaults_of, labels_of, Item};
use crate::model::Config;
use vstd::prelude::*;

verus! {

/// The look that a menu has when no other is chosen. The menu carries it
/// along for whoever draws; it never looks inside a theme.
#[derive(Clone, Copy, Debug)]
pub struct SimpleTheme;

/// A multi-selection menu under construction: its entries, how they are
/// paged, the prompt above them, and the theme they are drawn with.
pub struct MultiSelect<'a, T: ?Sized> {
    items: Vec<Item>,
    prompt: Option<String>,
    clear: bool,
    theme: &'a T,
    paged: bool,
    page_size: u32,
}

impl<'a, T: ?Sized> View for MultiSelect<'a, T> {
    type V = Config;

    closed spec fn view(&self) -> Config {
        Config {
            labels: labels_of(self.items@),
            defaults: defaults_of(self.items@),
            prompt: match self.prompt {
                Some(p) => Some(p@),
                None => None,
            },
            clear: self.clear,
            paged: self.paged,
            page_size: self.page_size as nat,
        }
    }
}

impl MultiSelect<'static, SimpleTheme> {
    /// A menu without entries, with the plain theme: no prompt, no paging,
    /// a page size of 10, and clearing up after itself.
    pub fn new() -> (menu: MultiSelect<'static, SimpleTheme>)
        ensures
            menu@ == (Config {
                labels: Seq::empty(),
                defaults: Seq::empty(),
                prompt: None,
                clear: true,
                paged: false,
                page_size: 10,
            }),
    {
        MultiSelect::with_theme(&SimpleTheme)
    }
}

impl Default for MultiSelect<'static, SimpleTheme> {
    /// The same as [`MultiSelect::new`].
    fn default() -> (menu: MultiSelect<'static, SimpleTheme>)
        ensures
            menu@ == (Config {
                labels: Seq::empty(),
                defaults: Seq::empty(),
                prompt: None,
                clear: true,
                paged: false,
                page_size: 10,
            }),
    {
        MultiSelect::new()
    }
}

impl<'a, T: ?Sized> MultiSelect<'a, T> {
    /// The theme that the menu carries.
    pub closed spec fn theme_of(&self) -> &'a T {
        self.theme
    }

    /// A menu without entries, with the given theme: no prompt, no paging,
    /// a page size of 10, and clearing up after itself.
    pub fn with_theme(theme: &'a T) -> (menu: MultiSelect<'a, T>)
        ensures
            menu@ == (Config {
                labels: Seq::empty(),
                defaults: Seq::empty(),
                prompt: None,
                clear: true,
                paged: false,
                page_size: 10,
            }),
            menu.theme_of() == theme,
    {
        let menu = MultiSelect {
            items: Vec::new(),
            prompt: None,
            clear: true,
            theme,
            paged: false,
            page_size: 10,
        };
        assert(menu@.labels =~= Seq::empty());
        assert(menu@.defaults =~= Seq::empty());
        menu
    }

    /// Turns paging on or off.
    pub fn paged(&mut self, val: bool) -> (menu: &mut MultiSelect<'a, T>)
        ensures
            menu@ == (Config { paged: val, ..old(self)@ }),
            menu.theme_of() == old(self).theme_of(),
            *final(self) == *final(menu),
    {
        self.paged = val;
        self
    }

    /// Adds one entry with its starting check mark.
    pub fn item_checked(&mut self, item: &str, checked: bool) -> (menu: &mut MultiSelect<'a, T>)
        ensures
            menu@ == (Config {
                labels: old(self)@.labels.push(item@),
                defaults: old(self)@.defaults.push(checked),
                ..old(self)@
            }),
            menu.theme_of() == old(self).theme_of(),
            *final(self) == *final(menu),
    {
        self.items.push(Item::new(item, checked));
        assert(labels_of(self.items@) =~= labels_of(old(self).items@).push(item@));
        assert(defaults_of(self.items@) =~= defaults_of(old(self).items@).push(checked));
        self
    }

    /// Adds one entry, unchecked to begin with.
    pub fn item(&mut self, item: &str) -> (menu: &mut MultiSelect<'a, T>)
        ensures
            menu@ == (Config {
                labels: old(self)@.labels.push(item@),
                defaults: old(self)@.defaults.push(false),
                ..old(self)@
            }),
            menu.theme_of() == old(self).theme_of(),
            *final(self) == *final(menu),
    {
        self.item_checked(item, false)
    }

    /// Adds the entries in order, each unchecked to begin with.
    pub fn items(&mut self, items: &[&str]) -> (menu: &mut MultiSelect<'a, T>)
        ensures
            menu@ == (Config {
                labels: old(self)@.labels + Seq::new(items@.len(), |i: int| items@[i]@),
                defaults: old(self)@.defaults + Seq::new(items@.len(), |i: int| false),
                ..old(self)@
            }),
            menu.theme_of() == old(self).theme_of(),
            *final(self) == *final(menu),
    {
        let mut k: usize = 0;
        while k < items.len()
            invariant
                k <= items.len(),
                self@ == (Config {
                    labels: old(self)@.labels + Seq::new(k as nat, |i: int| items@[i]@),
                    defaults: old(self)@.defaults + Seq::new(k as nat, |i: int| false),
                    ..old(self)@
                }),
                self.theme_of() == old(self).theme_of(),
            decreases items.len() - k,
        {
            let ghost before = self@;
            self.items.push(Item::new(items[k], false));
            proof {
                assert(self@.labels =~= before.labels.push(items@[k as int]@));
                assert(self@.defaults =~= before.defaults.push(false));
                assert(self@.labels =~= old(self)@.labels + Seq::new(
                    (k + 1) as nat,
                    |i: int| items@[i]@,
                ));
                assert(self@.defaults =~= old(self)@.defaults + Seq::new(
                    (k + 1) as nat,
                    |i: int| false,
                ));
            }
            k += 1;
        }
        self
    }

    /// Adds the entries in order, each with its starting check mark.
    pub fn items_checked(&mut self, items: &[(&str, bool)]) -> (menu: &mut MultiSelect<'a, T>)
        ensures
            menu@ == (Config {
                labels: old(self)@.labels + Seq::new(items@.len(), |i: int| items@[i].0@),
                defaults: old(self)@.defaults + Seq::new(items@.len(), |i: int| items@[i].1),
                ..old(self)@
            }),
            menu.theme_of() == old(self).theme_of(),
            *final(self) == *final(menu),
    {
        let mut k: usize = 0;
        while k < items.len()
            invariant
                k <= items.len(),
                self@ == (Config {
                    labels: old(self)@.labels + Seq::new(k as nat, |i: int| items@[i].0@),
                    defaults: old(self)@.defaults + Seq::new(k as nat, |i: int| items@[i].1),
                    ..old(self)@
                }),
                self.theme_of() == old(self).theme_of(),
            decreases items.len() - k,
        {
            let ghost before = self@;
            let (label, checked) = items[k];
            self.items.push(Item::new(label, checked));
            proof {
                assert(self@.labels =~= before.labels.push(items@[k as int].0@));
                assert(self@.defaults =~= before.defaults.push(items@[k as int].1));
                assert(self@.labels =~= old(self)@.labels + Seq::new(
                    (k + 1) as nat,
                    |i: int| items@[i].0@,
                ));
                assert(self@.defaults =~= old(self)@.defaults + Seq::new(
                    (k + 1) as nat,
                    |i: int| items@[i].1,
                ));
            }
            k += 1;
        }
        self
    }

    /// Sets the starting check marks of the entries added so far: the
    /// entry at each position takes the flag at that position; entries
    /// beyond the flags start unchecked, flags beyond the entries are
    /// dropped.
    pub fn defaults(&mut self, val: &[bool]) -> (menu: &mut MultiSelect<'a, T>)
        ensures
            menu@ == (Config {
                defaults: Seq::new(
                    old(self)@.labels.len(),
                    |i: int| i < val@.len() && val@[i],
                ),
                ..old(self)@
            }),
            menu.theme_of() == old(self).theme_of(),
            *final(self) == *final(menu),
    {
        let mut k: usize = 0;
        while k < self.items.len()
            invariant
                k <= self.items.len(),
                self@.labels == old(self)@.labels,
                self@.defaults.len() == old(self)@.labels.len(),
                forall|i: int|
                    0 <= i < k ==> (#[trigger] self.items@[i]).checked == (i < val@.len()
                        && val@[i]),
                self@ == (Config { defaults: self@.defaults, ..old(self)@ }),
                self.theme_of() == old(self).theme_of(),
            decreases self.items.len() - k,
        {
            let flag = k < val.len() && val[k];
            let ghost before = self.items@;
            self.items[k].checked = flag;
            proof {
                assert(labels_of(self.items@) =~= labels_of(before));
            }
            k += 1;
        }
        assert(self@.defaults =~= Seq::new(
            old(self)@.labels.len(),
            |i: int| i < val@.len() && val@[i],
        ));
        self
    }

    /// Sets how many rows a page holds when paging is on. Zero stands for 10.
    pub fn page_size(&mut self, val: u32) -> (menu: &mut MultiSelect<'a, T>)
        ensures
            menu@ == (Config {
                page_size: if val == 0 {
                    10
                } else {
                    val as nat
                },
                ..old(self)@
            }),
            menu.theme_of() == old(self).theme_of(),
            *final(self) == *final(menu),
    {
        self.page_size = if val == 0 {
            10
        } else {
            val
        };
        self
    }

    /// Sets whether the menu wipes its rows when the interaction ends.
    pub fn clear(&mut self, val: bool) -> (menu: &mut MultiSelect<'a, T>)
        ensures
            menu@ == (Config { clear: val, ..old(self)@ }),
            menu.theme_of() == old(self).theme_of(),
            *final(self) == *final(menu),
    {
        self.clear = val;
        self
    }

    /// Sets the prompt shown above the rows. With a prompt set, the menu
    /// also sums up the selection when the interaction ends.
    pub fn with_prompt(&mut self, prompt: &str) -> (menu: &mut MultiSelect<'a, T>)
        ensures
            menu@ == (Config { prompt: Some(prompt@), ..old(self)@ }),
            menu.theme_of() == old(self).theme_of(),
            *final(self) == *final(menu),
    {
        self.prompt = Some(prompt.to_owned());
        self
    }

    /// The theme that the menu carries.
    pub fn theme(&self) -> (theme: &'a T)
        ensures
            theme == self.theme_of(),
    {
        self.theme
    }

    /// The entries of the menu, in order.
    pub fn entries(&self) -> (items: &Vec<Item>)
        ensures
            labels_of(items@) == self@.labels,
            defaults_of(items@) == self@.defaults,
    {
        &self.items
    }

    /// The prompt, if one is set.
    pub fn prompt_text(&self) -> (prompt: Option<&String>)
        ensures
            match prompt {
                Some(p) => self@.prompt == Some(p@),
                None => self@.prompt is None,
            },
    {
        self.prompt.as_ref()
    }

    /// Whether the menu wipes its rows when the interaction ends.
    pub fn clears_on_exit(&self) -> (b: bool)
        ensures
            b == self@.clear,
    {
        self.clear
    }

    /// Whether the rows are shown a page at a time.
    pub fn is_paged(&self) -> (b: bool)
        ensures
            b == self@.paged,
    {
        self.paged
    }

    /// How many rows a page holds when `total` rows are visible, see
    /// [`Config::capacity`].
    pub fn capacity(&self, total: usize) -> (rows: usize)
        ensures
            rows == self@.capacity(total as nat),
    {
        if self.paged {
            if self.page_size > 0 {
                self.page_size as usize
            } else {
                10
            }
        } else {
            total
        }
    }

    /// Every menu has one starting check mark per entry.
    pub proof fn lemma_wf(&self)
        ensures
            self@.wf(),
    {
    }
}

} // verus!
