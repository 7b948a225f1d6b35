//! The built-in sources and the registry that finds the source owning an item.
use vstd::prelude::*;

use crate::json::str_eq;
use crate::source::SourceItem;

verus! {

/// The source of installed applications.
#[derive(Debug)]
pub struct ApplicationsSource;

impl ApplicationsSource {
    pub fn new() -> (r: ApplicationsSource) {
        ApplicationsSource
    }

    /// The name its items carry.
    pub fn name(&self) -> (r: &'static str)
        ensures
            r@ == "applications"@,
    {
        "applications"
    }
}

/// The source of on-screen windows.
#[derive(Debug)]
pub struct WindowsSource;

impl WindowsSource {
    pub fn new() -> (r: WindowsSource) {
        WindowsSource
    }

    /// The name its items carry.
    pub fn name(&self) -> (r: &'static str)
        ensures
            r@ == "windows"@,
    {
        "windows"
    }
}

/// The first position of `name` in `names`.
pub open spec fn position_of(names: Seq<Seq<char>>, name: Seq<char>, i: int) -> Option<int>
    decreases names.len() - i,
{
    if i < 0 || i >= names.len() {
        None
    } else if names[i] == name {
        Some(i)
    } else {
        position_of(names, name, i + 1)
    }
}

/// The registered sources, by name, in the order of registration.
#[derive(Debug)]
pub struct SourceRegistry {
    names: Vec<String>,
}

impl SourceRegistry {
    pub closed spec fn names(&self) -> Seq<Seq<char>> {
        self.names@.map_values(|s: String| s@)
    }

    /// A registry of the applications source and the windows source.
    pub fn new() -> (r: SourceRegistry)
        ensures
            r.names() == seq!["applications"@, "windows"@],
    {
        let mut reg = SourceRegistry { names: Vec::new() };
        let apps = ApplicationsSource::new();
        let windows = WindowsSource::new();
        reg.register(apps.name());
        reg.register(windows.name());
        assert(reg.names() =~= seq!["applications"@, "windows"@]);
        reg
    }

    fn register(&mut self, name: &str)
        ensures
            final(self).names() == old(self).names().push(name@),
    {
        self.names.push(name.to_owned());
        assert(self.names() =~= old(self).names().push(name@));
    }

    /// The position of the source that owns `item`, which the caller then runs
    /// the item with; the error names the missing source.
    pub fn execute(&self, item: &SourceItem) -> (r: Result<usize, String>)
        ensures
            match r {
                Ok(i) => position_of(self.names(), item.source_name@, 0) == Some(i as int),
                Err(e) => position_of(self.names(), item.source_name@, 0) is None && e@
                    == "No source found for: "@ + item.source_name@,
            },
    {
        let mut i: usize = 0;
        while i < self.names.len()
            invariant
                i <= self.names@.len(),
                position_of(self.names(), item.source_name@, 0) == position_of(
                    self.names(),
                    item.source_name@,
                    i as int,
                ),
            decreases self.names.len() - i,
        {
            if str_eq(self.names[i].as_str(), item.source_name.as_str()) {
                return Ok(i);
            }
            i = i + 1;
        }
        Err(String::from_str("No source found for: ").concat(item.source_name.as_str()))
    }
}

} // verus!
