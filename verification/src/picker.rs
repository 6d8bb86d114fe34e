//! The slot where a file picked in the browser waits until the next frame reads it.
use vstd::prelude::*;

verus! {

/// A picked file (its name and bytes), or nothing.
pub struct PickedFile {
    slot: Option<(String, Vec<u8>)>,
}

impl PickedFile {
    /// The file waiting in the slot, as (name, bytes).
    pub closed spec fn held(&self) -> Option<(Seq<char>, Seq<u8>)> {
        match self.slot {
            Some((name, data)) => Some((name@, data@)),
            None => None,
        }
    }

    /// An empty slot.
    pub fn new() -> (p: Self)
        ensures
            p.held() is None,
    {
        PickedFile { slot: None }
    }

    /// Takes the waiting file out of the slot, which is then empty.
    pub fn take(&mut self) -> (r: Option<(String, Vec<u8>)>)
        ensures
            final(self).held() is None,
            match r {
                Some((name, data)) => old(self).held() == Some((name@, data@)),
                None => old(self).held() is None,
            },
    {
        let r = self.slot.take();
        r
    }
}

/// Puts a picked file into the slot, replacing one that was waiting.
pub fn receive_file(picked: &mut PickedFile, file_name: String, data: Vec<u8>)
    ensures
        final(picked).held() == Some((file_name@, data@)),
{
    picked.slot = Some((file_name, data));
}

} // verus!
