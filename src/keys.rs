use vstd::prelude::*;

verus! {

/// The public key, as PEM text, of a remote actor.
pub struct KeyEntry {
    pub actor: String,
    pub pem: String,
}

/// Whether the cache holds a key for `actor`.
pub open spec fn has_actor(k: Seq<KeyEntry>, actor: Seq<char>) -> bool {
    exists|i: int| 0 <= i < k.len() && #[trigger] k[i].actor@ == actor
}

/// The cached public keys of remote actors, keyed by the actor's canonical
/// URI, at most one per actor.
pub struct KeyStore {
    pub keys: Vec<KeyEntry>,
}

impl KeyStore {
    pub open spec fn wf(&self) -> bool {
        forall|i: int, j: int|
            0 <= i < j < self.keys@.len() ==> #[trigger] self.keys@[i].actor@
                != #[trigger] self.keys@[j].actor@
    }

    pub fn new() -> (r: KeyStore)
        ensures
            r.wf(),
            r.keys@.len() == 0,
    {
        KeyStore { keys: Vec::new() }
    }

    fn position(&self, actor: &String) -> (r: Option<usize>)
        ensures
            r matches Some(i) ==> i < self.keys@.len() && self.keys@[i as int].actor@ == actor@,
            r is None <==> !has_actor(self.keys@, actor@),
    {
        let mut i: usize = 0;
        while i < self.keys.len()
            invariant
                i <= self.keys@.len(),
                forall|j: int| 0 <= j < i ==> #[trigger] self.keys@[j].actor@ != actor@,
            decreases self.keys@.len() - i,
        {
            if self.keys[i].actor == *actor {
                return Some(i);
            }
            i = i + 1;
        }
        None
    }

    /// The cached key of `actor`, if there is one.
    pub fn lookup(&self, actor: &String) -> (r: Option<String>)
        ensures
            r is None <==> !has_actor(self.keys@, actor@),
            r matches Some(k) ==> exists|i: int|
                0 <= i < self.keys@.len() && self.keys@[i].actor@ == actor@ && #[trigger] self.keys@[i].pem@
                    == k@,
    {
        match self.position(actor) {
            Some(i) => {
                let k = self.keys[i].pem.clone();
                assert(self.keys@[i as int].pem@ == k@);
                Some(k)
            },
            None => None,
        }
    }

    /// Caches `pem` as the key of `actor`, replacing the key cached before,
    /// as after a forced refetch.
    pub fn remember(&mut self, actor: String, pem: String)
        requires
            old(self).wf(),
        ensures
            final(self).wf(),
            has_actor(old(self).keys@, actor@) ==> exists|i: int|
                0 <= i < old(self).keys@.len() && old(self).keys@[i].actor@ == actor@
                    && #[trigger] final(self).keys@ == old(self).keys@.update(
                    i,
                    KeyEntry { actor, pem },
                ),
            !has_actor(old(self).keys@, actor@) ==> final(self).keys@ == old(self).keys@.push(
                KeyEntry { actor, pem },
            ),
    {
        match self.position(&actor) {
            Some(i) => {
                let ghost before = self.keys@;
                self.keys.set(i, KeyEntry { actor, pem });
                assert forall|a: int, b: int| 0 <= a < b < self.keys@.len() implies
                    #[trigger] self.keys@[a].actor@ != #[trigger] self.keys@[b].actor@ by {
                    assert(before[a].actor@ != before[b].actor@);
                }
            },
            None => {
                let ghost before = self.keys@;
                self.keys.push(KeyEntry { actor, pem });
                assert forall|a: int, b: int| 0 <= a < b < self.keys@.len() implies
                    #[trigger] self.keys@[a].actor@ != #[trigger] self.keys@[b].actor@ by {
                    if b < before.len() {
                        assert(before[a].actor@ != before[b].actor@);
                    } else {
                        assert(before[a].actor@ == self.keys@[a].actor@);
                    }
                }
            },
        }
    }
}

} // verus!
