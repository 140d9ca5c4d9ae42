use vstd::prelude::*;
use vstd::std_specs::convert::FromSpecImpl;

verus! {

/// A unit of text taken from the clipboard.
///
/// Inside the store `id` is the sequence number the clipping got when it was
/// appended; in a listing sent to a client it is the position in that listing.
#[derive(Debug, PartialEq, Eq)]
pub struct Clipping {
    pub data: String,
    pub id: usize,
}

/// The mathematical value of a [`Clipping`].
pub struct ClippingView {
    pub data: Seq<char>,
    pub id: nat,
}

impl View for Clipping {
    type V = ClippingView;

    open spec fn view(&self) -> ClippingView {
        ClippingView { data: self.data@, id: self.id as nat }
    }
}

/// The values of a sequence of clippings, one by one.
pub open spec fn clippings_view(clips: Seq<Clipping>) -> Seq<ClippingView> {
    clips.map_values(|c: Clipping| c@)
}

impl Clone for Clipping {
    fn clone(&self) -> (res: Self)
        ensures
            res == *self,
    {
        Clipping { data: self.data.clone(), id: self.id }
    }
}

impl From<String> for Clipping {
    /// A clipping of the given text that has not been numbered yet.
    fn from(string: String) -> (clip: Clipping) {
        Clipping { data: string, id: 0 }
    }
}

impl FromSpecImpl<String> for Clipping {
    open spec fn obeys_from_spec() -> bool {
        true
    }

    open spec fn from_spec(string: String) -> Clipping {
        Clipping { data: string, id: 0 }
    }
}

} // verus!
