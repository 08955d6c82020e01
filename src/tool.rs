//! Tools, and the registry that resolves a tool's name to the tool.
use vstd::prelude::*;

verus! {

/// A named capability that maps a structured value to a structured value.
pub trait Tool {
    /// The tool's name; a registry keeps the name it read at registration.
    fn name(&self) -> String;

    fn description(&self) -> String;

    /// Calls the tool; a failure carries its cause.
    fn call(&self, input: serde_json::Value) -> Result<serde_json::Value, String>;
}

/// A tool that hands its input back unchanged.
pub struct EchoTool;

impl EchoTool {
    /// The echo itself: the output is the input.
    pub fn echo(&self, input: serde_json::Value) -> (r: Result<serde_json::Value, String>)
        ensures
            r == Ok::<serde_json::Value, String>(input),
    {
        Ok(input)
    }
}

impl Tool for EchoTool {
    fn name(&self) -> (r: String)
        ensures
            r@ == "echo"@,
    {
        "echo".to_owned()
    }

    fn description(&self) -> (r: String)
        ensures
            r@ == "Echoes the inbound JSON back to the caller"@,
    {
        "Echoes the inbound JSON back to the caller".to_owned()
    }

    fn call(&self, input: serde_json::Value) -> (r: Result<serde_json::Value, String>)
        ensures
            r == Ok::<serde_json::Value, String>(input),
    {
        self.echo(input)
    }
}

/// Tools keyed by name, each name at most once. A tool is filed under the
/// name it gave when it was registered. Registering a name that is already
/// held replaces the tool under it (the last registration wins).
pub struct ToolRegistry<T: Tool> {
    entries: Vec<(String, T)>,
}

impl<T: Tool> ToolRegistry<T> {
    /// The registered names, in order.
    pub closed spec fn names(&self) -> Seq<Seq<char>> {
        self.entries@.map_values(|e: (String, T)| e.0@)
    }

    /// The registered tools, in the order of their names.
    pub closed spec fn tools(&self) -> Seq<T> {
        self.entries@.map_values(|e: (String, T)| e.1)
    }

    /// Each name is held at most once.
    pub open spec fn wf(&self) -> bool {
        &&& self.names().no_duplicates()
        &&& self.names().len() == self.tools().len()
    }

    /// The tool held under `name`, if any.
    pub open spec fn tool_named(&self, name: Seq<char>) -> Option<T> {
        if self.names().contains(name) {
            Some(self.tools()[self.names().index_of(name)])
        } else {
            None
        }
    }

    pub fn new() -> (r: ToolRegistry<T>)
        ensures
            r.wf(),
            r.names() == Seq::<Seq<char>>::empty(),
    {
        let r = ToolRegistry { entries: Vec::new() };
        assert(r.names() =~= Seq::<Seq<char>>::empty());
        r
    }

    /// The index of the tool named `name`.
    fn index_of(&self, name: &str) -> (r: Option<usize>)
        requires
            self.wf(),
        ensures
            match r {
                Some(i) => i < self.names().len() && self.names()[i as int] == name@,
                None => !self.names().contains(name@),
            },
    {
        let wanted = name.to_owned();
        let mut i: usize = 0;
        while i < self.entries.len()
            invariant
                0 <= i <= self.entries@.len(),
                wanted@ == name@,
                forall|j: int| 0 <= j < i ==> self.names()[j] != name@,
            decreases self.entries@.len() - i,
        {
            if self.entries[i].0 == wanted {
                return Some(i);
            }
            i = i + 1;
        }
        None
    }

    /// Adds `tool` under the name it gives, replacing a tool already held there.
    pub fn register(&mut self, tool: T)
        requires
            old(self).wf(),
        ensures
            final(self).wf(),
            exists|n: Seq<char>|
                {
                    &&& final(self).tool_named(n) == Some(tool)
                    &&& forall|m: Seq<char>| m != n ==> final(self).tool_named(m) == old(self).tool_named(m)
                },
    {
        let name = tool.name();
        self.insert(name, tool);
    }

    /// Files `tool` under `name`, replacing a tool already held there.
    pub fn insert(&mut self, name: String, tool: T)
        requires
            old(self).wf(),
        ensures
            final(self).wf(),
            final(self).tool_named(name@) == Some(tool),
            forall|m: Seq<char>| m != name@ ==> final(self).tool_named(m) == old(self).tool_named(m),
    {
        let ghost n = name@;
        let ghost before = self.entries@;
        let ghost old_names = self.names();
        match self.index_of(name.as_str()) {
            Some(i) => {
                self.entries.set(i, (name, tool));
                assert(self.names() =~= old_names.update(i as int, n));
                assert(self.names() =~= old_names);
                assert(self.tools()[i as int] == tool);
                assert(self.names().index_of(n) == i as int) by {
                    lemma_index_of_distinct(self.names(), i as int);
                }
                assert forall|m: Seq<char>| m != n implies self.tool_named(m) == old(self).tool_named(m) by {
                    if old_names.contains(m) {
                        let k = old_names.index_of(m);
                        lemma_index_of_distinct(old_names, k);
                        assert(k != i);
                    }
                }
            },
            None => {
                self.entries.push((name, tool));
                assert(self.names() =~= old_names.push(n));
                let ghost last = before.len() as int;
                assert(self.tools()[last] == tool);
                assert(self.names()[last] == n);
                assert(self.wf()) by {
                    assert forall|a: int, b: int| 0 <= a < b < self.names().len() implies self.names()[a] != self.names()[b] by {
                        if b == last {
                            assert(old_names[a] == self.names()[a]);
                        }
                    }
                }
                assert(self.names().index_of(n) == last) by {
                    lemma_index_of_distinct(self.names(), last);
                }
                assert forall|m: Seq<char>| m != n implies self.tool_named(m) == old(self).tool_named(m) by {
                    if old_names.contains(m) {
                        let k = old_names.index_of(m);
                        assert(self.names()[k] == m);
                        lemma_index_of_distinct(self.names(), k);
                        lemma_index_of_distinct(old_names, k);
                    }
                    if self.names().contains(m) {
                        let k = self.names().index_of(m);
                        assert(old_names[k] == m);
                    }
                }
            },
        }
        assert(self.tool_named(n) == Some(tool));
    }

    /// The tool registered under `name`, if any; the registry is not changed.
    pub fn resolve(&self, name: &str) -> (r: Option<&T>)
        requires
            self.wf(),
        ensures
            match r {
                Some(t) => self.tool_named(name@) == Some(*t),
                None => self.tool_named(name@) is None,
            },
    {
        match self.index_of(name) {
            Some(i) => {
                proof { lemma_index_of_distinct(self.names(), i as int); }
                Some(&self.entries[i].1)
            },
            None => None,
        }
    }
}

/// In a sequence without duplicates, the first index of an element is its index.
proof fn lemma_index_of_distinct(s: Seq<Seq<char>>, i: int)
    requires
        s.no_duplicates(),
        0 <= i < s.len(),
    ensures
        s.contains(s[i]),
        s.index_of(s[i]) == i,
{
    assert(s.contains(s[i]));
    s.index_of_first_ensures(s[i]);
    let k = s.index_of(s[i]);
    assert(s[k] == s[i]);
}

} // verus!
