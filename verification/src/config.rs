//! Configuration of a breaker.
use std::time::Duration;
use vstd::prelude::*;

use crate::time::duration_from_secs;

verus! {

/// Configuration for a [`crate::CircuitBreaker`]: a name, how long the
/// breaker stays open, and how many successful probes close it.
///
/// Use the builder methods to change the defaults.
pub struct Config {
    name: String,
    pub open_duration: Duration,
    pub half_open_probes: u32,
}

impl Config {
    /// The name of the breaker.
    pub closed spec fn name_view(&self) -> Seq<char> {
        self.name@
    }

    /// How long the breaker stays open.
    pub closed spec fn open_duration_of(&self) -> Duration {
        self.open_duration
    }

    /// How many successful probes close the breaker.
    pub closed spec fn probe_count(&self) -> u32 {
        self.half_open_probes
    }

    /// A configuration with the given name and the defaults: the breaker
    /// stays open for 30 seconds and closes after 5 successful probes.
    pub fn new(name: &str) -> (c: Self)
        ensures
            c.name_view() == name@,
            crate::time::duration_nanos(c.open_duration_of()) == 30_000_000_000,
            c.probe_count() == 5,
    {
        Config { name: name.to_owned(), open_duration: duration_from_secs(30), half_open_probes: 5 }
    }

    /// Sets how long the breaker stays open before it lets a probe call
    /// through.
    pub fn open_duration(self, duration: Duration) -> (c: Self)
        ensures
            c.name_view() == self.name_view(),
            c.open_duration_of() == duration,
            c.probe_count() == self.probe_count(),
    {
        let mut c = self;
        c.open_duration = duration;
        c
    }

    /// Sets how many successful probe calls close the breaker.
    pub fn half_open_probes(self, probes: u32) -> (c: Self)
        ensures
            c.name_view() == self.name_view(),
            c.open_duration_of() == self.open_duration_of(),
            c.probe_count() == probes,
    {
        let mut c = self;
        c.half_open_probes = probes;
        c
    }

    /// How many successful probes close the breaker.
    pub fn probes_value(&self) -> (r: u32)
        ensures
            r == self.probe_count(),
    {
        self.half_open_probes
    }

    /// How long the breaker stays open.
    pub fn open_duration_value(&self) -> (d: Duration)
        ensures
            d == self.open_duration_of(),
    {
        self.open_duration
    }

    /// The name of the breaker.
    pub fn name(&self) -> (r: &str)
        ensures
            r@ == self.name_view(),
    {
        self.name.as_str()
    }
}

impl Clone for Config {
    /// A copy with the same name, open duration and probe count.
    fn clone(&self) -> (c: Self)
        ensures
            c.name_view() == self.name_view(),
            c.open_duration_of() == self.open_duration_of(),
            c.probe_count() == self.probe_count(),
    {
        Config {
            name: self.name.clone(),
            open_duration: self.open_duration,
            half_open_probes: self.half_open_probes,
        }
    }
}

/// `next` is `prev` after one builder call or a clone: the name is kept,
/// and at most one of the open duration and the probe count changed.
pub open spec fn one_builder_step(prev: Config, next: Config) -> bool {
    &&& next.name_view() == prev.name_view()
    &&& next.open_duration_of() == prev.open_duration_of() || next.probe_count()
        == prev.probe_count()
}

/// The name given to `Config::new` survives any chain of builder calls and
/// clones.
pub proof fn name_survives_builders(chain: Seq<Config>)
    requires
        chain.len() > 0,
        forall|i: int| 0 <= i < chain.len() - 1 ==> one_builder_step(chain[i], #[trigger] chain[i + 1]),
    ensures
        forall|i: int| 0 <= i < chain.len() ==> (#[trigger] chain[i]).name_view() == chain[0].name_view(),
    decreases chain.len(),
{
    if chain.len() > 1 {
        let shorter = chain.drop_last();
        assert forall|i: int| 0 <= i < shorter.len() - 1 implies one_builder_step(
            shorter[i],
            #[trigger] shorter[i + 1],
        ) by {
            assert(one_builder_step(chain[i], chain[i + 1]));
        }
        name_survives_builders(shorter);
        let k: int = chain.len() - 2;
        assert(one_builder_step(chain[k], chain[k + 1]));
        assert(shorter[0] == chain[0]);
        assert(shorter[k] == chain[k]);
        assert forall|i: int| 0 <= i < chain.len() implies (#[trigger] chain[i]).name_view()
            == chain[0].name_view() by {
            if i < chain.len() - 1 {
                assert(shorter[i] == chain[i]);
            }
        }
    }
}

} // verus!
