//! The records of the bot instances.

use vstd::prelude::*;

use crate::clock::{utc_now_parts, Timestamp};
use crate::db::DbCollection;

verus! {

/// The stored record of one bot instance: what should be running.
pub struct BotInstance {
    /// Unique key of the instance.
    pub name: String,
    /// Authentication token of the chat transport.
    pub token: String,
    /// Source of the script that configures the instance.
    pub script: String,
    /// Set from outside to force the instance to be reloaded.
    pub restart_flag: bool,
    pub created_at: Timestamp,
}

impl DbCollection for BotInstance {
    const COLLECTION: &'static str = "bots";
}

impl BotInstance {
    /// A record as a deploy creates it, made at the time that the machine's
    /// clock shows: the restart flag is clear.
    pub fn new(name: String, token: String, script: String) -> (bi: Self)
        ensures
            bi.name == name,
            bi.token == token,
            bi.script == script,
            !bi.restart_flag,
    {
        let (secs, nanos) = utc_now_parts();
        BotInstance {
            name,
            token,
            script,
            restart_flag: false,
            created_at: Timestamp { secs, nanos },
        }
    }

    /// Sets or clears the restart flag.
    pub fn restart_one(&mut self, restart: bool)
        ensures
            final(self).restart_flag == restart,
            final(self).name == old(self).name,
            final(self).token == old(self).token,
            final(self).script == old(self).script,
            final(self).created_at == old(self).created_at,
    {
        self.restart_flag = restart;
    }

    /// Pushes a new script to the instance: the restart flag is set, so
    /// that the supervisor loads the script.
    pub fn update_script(&mut self, script: String)
        ensures
            final(self).script == script,
            final(self).restart_flag,
            final(self).name == old(self).name,
            final(self).token == old(self).token,
            final(self).created_at == old(self).created_at,
    {
        self.script = script;
        self.restart_flag = true;
    }
}

/// Sets or clears the restart flag of every record.
pub fn restart_all(records: &mut Vec<BotInstance>, restart: bool)
    ensures
        final(records)@.len() == old(records)@.len(),
        forall|i: int|
            0 <= i < old(records)@.len() ==> {
                &&& (#[trigger] final(records)@[i]).restart_flag == restart
                &&& final(records)@[i].name == old(records)@[i].name
                &&& final(records)@[i].token == old(records)@[i].token
                &&& final(records)@[i].script == old(records)@[i].script
                &&& final(records)@[i].created_at == old(records)@[i].created_at
            },
{
    let mut i: usize = 0;
    while i < records.len()
        invariant
            i <= records@.len(),
            records@.len() == old(records)@.len(),
            forall|k: int|
                0 <= k < i ==> {
                    &&& (#[trigger] records@[k]).restart_flag == restart
                    &&& records@[k].name == old(records)@[k].name
                    &&& records@[k].token == old(records)@[k].token
                    &&& records@[k].script == old(records)@[k].script
                    &&& records@[k].created_at == old(records)@[k].created_at
                },
            forall|k: int| i <= k < records@.len() ==> (#[trigger] records@[k]) == old(records)@[k],
        decreases records@.len() - i,
    {
        let mut record = records.remove(i);
        record.restart_one(restart);
        records.insert(i, record);
        i += 1;
    }
}

} // verus!
