//! The event channels of resources.
use vstd::prelude::*;
use crate::table::Table;

verus! {

/// How many events a channel holds.
pub const CHANNEL_CAPACITY: usize = 32;

/// The key of a resource.
pub open spec fn resource_key(namespace: Seq<char>, name: Seq<char>) -> Seq<char> {
    namespace + "/"@ + name
}

/// Makes the key of a resource.
pub fn key_of(namespace: &str, name: &str) -> (r: String)
    ensures
        r@ == resource_key(namespace@, name@),
{
    let mut out = namespace.to_string();
    out.append("/");
    out.append(name);
    out
}

/// Different resources have different keys, where no namespace holds a slash.
pub proof fn lemma_keys_differ(
    namespace: Seq<char>,
    name: Seq<char>,
    other_namespace: Seq<char>,
    other_name: Seq<char>,
)
    requires
        !namespace.contains('/'),
        !other_namespace.contains('/'),
        namespace != other_namespace || name != other_name,
    ensures
        resource_key(namespace, name) != resource_key(other_namespace, other_name),
{
    reveal_strlit("/");
    let a = resource_key(namespace, name);
    let b = resource_key(other_namespace, other_name);
    if a == b {
        let n = namespace.len() as int;
        let m = other_namespace.len() as int;
        assert(a[n] == '/');
        assert(b[m] == '/');
        if n < m {
            assert(other_namespace[n] == b[n]);
        } else if m < n {
            assert(namespace[m] == a[m]);
        }
        assert(namespace =~= a.take(n));
        assert(other_namespace =~= b.take(m));
        assert(name =~= a.skip(n + 1));
        assert(other_name =~= b.skip(m + 1));
    }
}

/// The sending ends of the channels, by resource.
pub struct EventChannelRegistry<S> {
    pub channels: Table<S>,
}

impl<S> View for EventChannelRegistry<S> {
    type V = Map<Seq<char>, S>;

    open spec fn view(&self) -> Map<Seq<char>, S> {
        self.channels@
    }
}

impl<S> EventChannelRegistry<S> {
    /// A registry without channels.
    pub fn new() -> (r: EventChannelRegistry<S>)
        ensures
            r@ == Map::<Seq<char>, S>::empty(),
    {
        EventChannelRegistry { channels: Table::new() }
    }

    /// Sets the channel of a resource.
    pub fn register(&mut self, namespace: &str, name: &str, sender: S)
        ensures
            final(self)@ == old(self)@.insert(resource_key(namespace@, name@), sender),
    {
        self.channels.insert(key_of(namespace, name).as_str(), sender);
    }

    /// Drops the channel of a resource.
    pub fn unregister(&mut self, namespace: &str, name: &str)
        ensures
            final(self)@ == old(self)@.remove(resource_key(namespace@, name@)),
    {
        self.channels.remove(key_of(namespace, name).as_str());
    }

    /// The channel of a resource.
    pub fn sender(&self, namespace: &str, name: &str) -> (r: Option<&S>)
        ensures
            match r {
                Some(s) => self@.contains_key(resource_key(namespace@, name@)) && self@[resource_key(
                    namespace@,
                    name@,
                )] == *s,
                None => !self@.contains_key(resource_key(namespace@, name@)),
            },
    {
        self.channels.get(key_of(namespace, name).as_str())
    }

    /// Tells whether a resource has a channel.
    pub fn has(&self, namespace: &str, name: &str) -> (r: bool)
        ensures
            r == self@.contains_key(resource_key(namespace@, name@)),
    {
        self.channels.contains_key(key_of(namespace, name).as_str())
    }
}

/// The key of a resource is its namespace and its name, with a slash between them.
pub proof fn lemma_key_holds_both(namespace: Seq<char>, name: Seq<char>)
    ensures
        resource_key(namespace, name).take(namespace.len() as int) == namespace,
        resource_key(namespace, name)[namespace.len() as int] == '/',
        resource_key(namespace, name).skip(namespace.len() as int + 1) == name,
{
    reveal_strlit("/");
    let key = resource_key(namespace, name);
    assert(key.take(namespace.len() as int) =~= namespace);
    assert(key.skip(namespace.len() as int + 1) =~= name);
}

} // verus!
