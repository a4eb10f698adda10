//! Development seed data: the users a seed creates and what it reports.
use vstd::prelude::*;

verus! {

/// What seeding the development database reports.
#[derive(Debug, Clone, Copy, PartialEq, Eq, Structural)]
pub struct SeedResponse {
    pub ok: bool,
    pub users: usize,
    pub events: usize,
    pub training: usize,
}

/// A user the seed creates or refreshes.
#[derive(Debug)]
pub struct SeedUser {
    pub id: &'static str,
    pub cid: i64,
    pub email: &'static str,
    pub display_name: &'static str,
    pub role: &'static str,
    pub first_name: &'static str,
    pub last_name: &'static str,
    pub artcc: &'static str,
    pub rating: &'static str,
    pub division: &'static str,
}

/// The seeded users: a staff member, a student and a trainer of ZDC.
pub fn seed_users() -> (r: Vec<SeedUser>)
    ensures
        r@.len() == 3,
        r@[0].id@ == "seed-staff"@ && r@[0].cid == 10000010 && r@[0].role@ == "STAFF"@ && r@[0].rating@ == "S3"@,
        r@[0].email@ == "dev-staff@example.invalid"@ && r@[0].display_name@ == "Dev Staff"@ && r@[0].last_name@ == "Staff"@,
        r@[1].id@ == "seed-student"@ && r@[1].cid == 10000011 && r@[1].role@ == "USER"@ && r@[1].rating@ == "S1"@,
        r@[1].email@ == "dev-student@example.invalid"@ && r@[1].display_name@ == "Dev Student"@ && r@[1].last_name@ == "Student"@,
        r@[2].id@ == "seed-trainer"@ && r@[2].cid == 10000012 && r@[2].role@ == "STAFF"@ && r@[2].rating@ == "C1"@,
        r@[2].email@ == "dev-trainer@example.invalid"@ && r@[2].display_name@ == "Dev Trainer"@ && r@[2].last_name@ == "Trainer"@,
        forall|k: int| 0 <= k < 3 ==> (#[trigger] r@[k]).artcc@ == "ZDC"@ && r@[k].division@ == "USA"@ && r@[k].first_name@ == "Dev"@,
{
    let mut v: Vec<SeedUser> = Vec::new();
    v.push(
        SeedUser {
            id: "seed-staff",
            cid: 10000010,
            email: "dev-staff@example.invalid",
            display_name: "Dev Staff",
            role: "STAFF",
            first_name: "Dev",
            last_name: "Staff",
            artcc: "ZDC",
            rating: "S3",
            division: "USA",
        },
    );
    v.push(
        SeedUser {
            id: "seed-student",
            cid: 10000011,
            email: "dev-student@example.invalid",
            display_name: "Dev Student",
            role: "USER",
            first_name: "Dev",
            last_name: "Student",
            artcc: "ZDC",
            rating: "S1",
            division: "USA",
        },
    );
    v.push(
        SeedUser {
            id: "seed-trainer",
            cid: 10000012,
            email: "dev-trainer@example.invalid",
            display_name: "Dev Trainer",
            role: "STAFF",
            first_name: "Dev",
            last_name: "Trainer",
            artcc: "ZDC",
            rating: "C1",
            division: "USA",
        },
    );
    v
}

/// What a completed seed reports: three users, one event and three training records.
pub fn seed_response() -> (r: SeedResponse)
    ensures
        r == (SeedResponse { ok: true, users: 3, events: 1, training: 3 }),
{
    SeedResponse { ok: true, users: 3, events: 1, training: 3 }
}

} // verus!
