//! The tab bar of an instance's page: which tab shows which page, with the shader tab present
//! only when the instance asks for it or it is the page shown.
use vstd::prelude::*;

use crate::config::InstanceSubpageType;

verus! {

/// Whether the shader tab is shown: the instance asks for it, or it is the page shown.
pub open spec fn spec_shows_shader_tab(instance_shows_shaders: bool, current: InstanceSubpageType) -> bool {
    instance_shows_shaders || current == InstanceSubpageType::Shaders
}

/// The position of a page's tab.
pub open spec fn spec_tab_index(page: InstanceSubpageType, show_shader_tab: bool) -> int {
    match page {
        InstanceSubpageType::Quickplay => 0,
        InstanceSubpageType::Logs => 1,
        InstanceSubpageType::Mods => 2,
        InstanceSubpageType::ResourcePacks => 3,
        InstanceSubpageType::Shaders => 4,
        InstanceSubpageType::Performance => if show_shader_tab {
            5
        } else {
            4
        },
        InstanceSubpageType::Settings => if show_shader_tab {
            6
        } else {
            5
        },
    }
}

/// The page a tab opens; none for a position past the last tab.
pub open spec fn spec_tab_page(index: int, show_shader_tab: bool) -> Option<InstanceSubpageType> {
    if index == 0 {
        Some(InstanceSubpageType::Quickplay)
    } else if index == 1 {
        Some(InstanceSubpageType::Logs)
    } else if index == 2 {
        Some(InstanceSubpageType::Mods)
    } else if index == 3 {
        Some(InstanceSubpageType::ResourcePacks)
    } else if index == 4 {
        Some(
            if show_shader_tab {
                InstanceSubpageType::Shaders
            } else {
                InstanceSubpageType::Performance
            },
        )
    } else if index == 5 {
        Some(
            if show_shader_tab {
                InstanceSubpageType::Performance
            } else {
                InstanceSubpageType::Settings
            },
        )
    } else if index == 6 && show_shader_tab {
        Some(InstanceSubpageType::Settings)
    } else {
        None
    }
}

/// Whether the shader tab is shown: the instance asks for it, or it is the page shown.
pub fn shows_shader_tab(instance_shows_shaders: bool, current: InstanceSubpageType) -> (res: bool)
    ensures
        res == spec_shows_shader_tab(instance_shows_shaders, current),
{
    instance_shows_shaders || current == InstanceSubpageType::Shaders
}

/// The position of a page's tab.
pub fn tab_index(page: InstanceSubpageType, show_shader_tab: bool) -> (res: usize)
    ensures
        res == spec_tab_index(page, show_shader_tab),
{
    match page {
        InstanceSubpageType::Quickplay => 0,
        InstanceSubpageType::Logs => 1,
        InstanceSubpageType::Mods => 2,
        InstanceSubpageType::ResourcePacks => 3,
        InstanceSubpageType::Shaders => 4,
        InstanceSubpageType::Performance => if show_shader_tab {
            5
        } else {
            4
        },
        InstanceSubpageType::Settings => if show_shader_tab {
            6
        } else {
            5
        },
    }
}

/// The page a clicked tab opens; none for a position past the last tab.
pub fn tab_page(index: usize, show_shader_tab: bool) -> (res: Option<InstanceSubpageType>)
    ensures
        res == spec_tab_page(index as int, show_shader_tab),
{
    if index == 0 {
        Some(InstanceSubpageType::Quickplay)
    } else if index == 1 {
        Some(InstanceSubpageType::Logs)
    } else if index == 2 {
        Some(InstanceSubpageType::Mods)
    } else if index == 3 {
        Some(InstanceSubpageType::ResourcePacks)
    } else if index == 4 {
        if show_shader_tab {
            Some(InstanceSubpageType::Shaders)
        } else {
            Some(InstanceSubpageType::Performance)
        }
    } else if index == 5 {
        if show_shader_tab {
            Some(InstanceSubpageType::Performance)
        } else {
            Some(InstanceSubpageType::Settings)
        }
    } else if index == 6 && show_shader_tab {
        Some(InstanceSubpageType::Settings)
    } else {
        None
    }
}

/// The tab highlighted for the page shown opens that page again, and a tab that opens a page
/// is the one highlighted for it: tabs and pages correspond one to one.
pub proof fn law_tabs_round_trip(page: InstanceSubpageType, instance_shows_shaders: bool, index: int)
    ensures
        ({
            let show = spec_shows_shader_tab(instance_shows_shaders, page);
            spec_tab_page(spec_tab_index(page, show), show) == Some(page)
        }),
        spec_tab_page(index, instance_shows_shaders) == Some(page) ==> spec_tab_index(page, instance_shows_shaders)
            == index,
        spec_tab_page(index, instance_shows_shaders) is Some <==> (0 <= index < if instance_shows_shaders {
            7int
        } else {
            6int
        }),
{
}

/// The pages of an instance already made, one slot per tab: a page is made on the first visit
/// of its tab and kept for later visits.
pub struct InstanceSubpageCache<T> {
    pub quickplay: Option<T>,
    pub logs: Option<T>,
    pub mods: Option<T>,
    pub resource_packs: Option<T>,
    pub shaders: Option<T>,
    pub performance: Option<T>,
    pub settings: Option<T>,
}

impl<T> InstanceSubpageCache<T> {
    /// The slot of a tab.
    pub open spec fn slot(&self, t: InstanceSubpageType) -> Option<T> {
        match t {
            InstanceSubpageType::Quickplay => self.quickplay,
            InstanceSubpageType::Logs => self.logs,
            InstanceSubpageType::Mods => self.mods,
            InstanceSubpageType::ResourcePacks => self.resource_packs,
            InstanceSubpageType::Shaders => self.shaders,
            InstanceSubpageType::Performance => self.performance,
            InstanceSubpageType::Settings => self.settings,
        }
    }

    /// No page made yet.
    pub fn new() -> (res: Self)
        ensures
            forall|t: InstanceSubpageType| #[trigger] res.slot(t) is None,
    {
        InstanceSubpageCache {
            quickplay: None,
            logs: None,
            mods: None,
            resource_packs: None,
            shaders: None,
            performance: None,
            settings: None,
        }
    }

    /// The page of a tab, if it was made.
    pub fn get(&self, t: InstanceSubpageType) -> (res: Option<&T>)
        ensures
            match self.slot(t) {
                Some(v) => res == Some(&v),
                None => res is None,
            },
    {
        match t {
            InstanceSubpageType::Quickplay => self.quickplay.as_ref(),
            InstanceSubpageType::Logs => self.logs.as_ref(),
            InstanceSubpageType::Mods => self.mods.as_ref(),
            InstanceSubpageType::ResourcePacks => self.resource_packs.as_ref(),
            InstanceSubpageType::Shaders => self.shaders.as_ref(),
            InstanceSubpageType::Performance => self.performance.as_ref(),
            InstanceSubpageType::Settings => self.settings.as_ref(),
        }
    }

    /// Whether the page of a tab was made.
    pub fn contains(&self, t: InstanceSubpageType) -> (res: bool)
        ensures
            res == self.slot(t) is Some,
    {
        self.get(t).is_some()
    }

    /// The page of a tab is made once: when the tab has none, `make` makes it and it is kept;
    /// when it has one, that page is reused and `make` is not called. The other tabs keep
    /// theirs. Returns whether a page was made.
    pub fn get_or_insert_with<F: FnOnce() -> T>(&mut self, t: InstanceSubpageType, make: F) -> (made: bool)
        requires
            old(self).slot(t) is None ==> make.requires(()),
        ensures
            made == old(self).slot(t) is None,
            !made ==> *final(self) == *old(self),
            made ==> (final(self).slot(t) matches Some(v) && make.ensures((), v)),
            forall|u: InstanceSubpageType| u != t ==> #[trigger] final(self).slot(u) == old(self).slot(u),
    {
        if self.contains(t) {
            false
        } else {
            let page = make();
            self.insert(t, page);
            true
        }
    }

    /// Keeps the page just made for a tab that had none; the other tabs keep theirs.
    pub fn insert(&mut self, t: InstanceSubpageType, page: T)
        requires
            old(self).slot(t) is None,
        ensures
            final(self).slot(t) == Some(page),
            forall|u: InstanceSubpageType| u != t ==> #[trigger] final(self).slot(u) == old(self).slot(u),
    {
        match t {
            InstanceSubpageType::Quickplay => self.quickplay = Some(page),
            InstanceSubpageType::Logs => self.logs = Some(page),
            InstanceSubpageType::Mods => self.mods = Some(page),
            InstanceSubpageType::ResourcePacks => self.resource_packs = Some(page),
            InstanceSubpageType::Shaders => self.shaders = Some(page),
            InstanceSubpageType::Performance => self.performance = Some(page),
            InstanceSubpageType::Settings => self.settings = Some(page),
        }
    }
}

/// Where an instance is in its run.
#[derive(Clone, Copy, PartialEq, Eq, Structural, Debug)]
pub enum InstanceStatus {
    NotRunning,
    Launching,
    Stopping,
    Running,
}

/// The run controls of an instance's page.
#[derive(Clone, Copy, PartialEq, Eq, Structural, Debug)]
pub enum RunControls {
    /// A start button.
    Start,
    /// A "starting" note that does nothing.
    Starting,
    /// A "stopping" button that kills the game.
    Stopping,
    /// A kill button, and a start-again button that asks for confirmation first.
    KillOrStartAgain,
}

/// The run controls for a status.
pub fn run_controls(status: InstanceStatus) -> (res: RunControls)
    ensures
        res == match status {
            InstanceStatus::NotRunning => RunControls::Start,
            InstanceStatus::Launching => RunControls::Starting,
            InstanceStatus::Stopping => RunControls::Stopping,
            InstanceStatus::Running => RunControls::KillOrStartAgain,
        },
{
    match status {
        InstanceStatus::NotRunning => RunControls::Start,
        InstanceStatus::Launching => RunControls::Starting,
        InstanceStatus::Stopping => RunControls::Stopping,
        InstanceStatus::Running => RunControls::KillOrStartAgain,
    }
}

} // verus!
