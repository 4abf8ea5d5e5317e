//! Exit selection: among the known exit servers, the one whose hostname is
//! nearest to the requested name by Damerau-Levenshtein distance wins, the
//! earliest listed among ties.
use vstd::prelude::*;

verus! {

/// What `strsim::damerau_levenshtein` returns: the edit distance between
/// the two strings, a function of their characters alone.
pub uninterp spec fn dl_distance(a: Seq<char>, b: Seq<char>) -> usize;

/// Relies on `strsim::damerau_levenshtein`: the Damerau-Levenshtein edit
/// distance of the two strings.
pub assume_specification[ strsim::damerau_levenshtein ](a: &str, b: &str) -> (r: usize)
    ensures
        r == dl_distance(a@, b@),
;

/// One exit server as the cache reports it: its hostname and the public
/// key its transport sessions are sealed to.
pub struct ExitInfo {
    /// The exit's hostname.
    pub hostname: String,
    /// The exit's long-term transport public key.
    pub sosistab_key: [u8; 32],
}

/// Picks the exit to connect to: the index of the exit whose hostname has
/// the smallest Damerau-Levenshtein distance to the requested name,
/// earliest first among equals; an empty list is exactly the "no exits"
/// failure.
pub fn pick_exit(exits: &Vec<ExitInfo>, requested: &str) -> (r: Result<usize, crate::NetError>)
    ensures
        r == Err::<usize, crate::NetError>(crate::NetError::NoExits) <==> exits@.len() == 0,
        r is Ok <==> exits@.len() > 0,
        r matches Ok(i) ==> {
            &&& i < exits@.len()
            &&& (forall|j: int|
                0 <= j < exits@.len() ==> dl_distance(exits@[i as int].hostname@, requested@)
                    <= dl_distance((#[trigger] exits@[j]).hostname@, requested@))
            &&& (forall|j: int|
                0 <= j < i ==> dl_distance((#[trigger] exits@[j]).hostname@, requested@)
                    > dl_distance(exits@[i as int].hostname@, requested@))
        },
{
    if exits.len() == 0 {
        return Err(crate::NetError::NoExits);
    }
    let mut best: usize = 0;
    let mut best_dist = strsim::damerau_levenshtein(exits[0].hostname.as_str(), requested);
    let mut j: usize = 1;
    while j < exits.len()
        invariant
            1 <= j <= exits@.len(),
            best < j,
            best_dist == dl_distance(exits@[best as int].hostname@, requested@),
            forall|k: int|
                0 <= k < j ==> best_dist <= dl_distance(
                    (#[trigger] exits@[k]).hostname@,
                    requested@,
                ),
            forall|k: int|
                0 <= k < best ==> dl_distance((#[trigger] exits@[k]).hostname@, requested@)
                    > best_dist,
        decreases exits@.len() - j,
    {
        let d = strsim::damerau_levenshtein(exits[j].hostname.as_str(), requested);
        if d < best_dist {
            best = j;
            best_dist = d;
        }
        j = j + 1;
    }
    Ok(best)
}

} // verus!
