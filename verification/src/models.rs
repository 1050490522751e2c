//! Data model: specialty categories, departments, quality specialists and
//! draw records.

use vstd::prelude::*;

verus! {

/// Specialty a draw request asks for.
#[derive(Debug, Clone, Copy, PartialEq, Eq, Structural)]
pub enum SpecialtyType {
    Pressure,
    Mechanical,
}

impl SpecialtyType {
    pub open spec fn spec_display_name(self) -> Seq<char> {
        match self {
            SpecialtyType::Pressure => "承压类"@,
            SpecialtyType::Mechanical => "机电类"@,
        }
    }

    /// Human-readable label of the specialty.
    pub fn display_name(&self) -> (r: &'static str)
        ensures
            r@ == self.spec_display_name(),
    {
        match self {
            SpecialtyType::Pressure => "承压类",
            SpecialtyType::Mechanical => "机电类",
        }
    }
}

/// Category of a department. `Comprehensive` is the combined category: it
/// satisfies the membership test for every specialty.
#[derive(Debug, Clone, Copy, PartialEq, Eq, Structural)]
pub enum DepartmentType {
    Pressure,
    Mechanical,
    Comprehensive,
}

impl DepartmentType {
    pub open spec fn spec_display_name(self) -> Seq<char> {
        match self {
            DepartmentType::Pressure => "承压类"@,
            DepartmentType::Mechanical => "机电类"@,
            DepartmentType::Comprehensive => "综合类"@,
        }
    }

    /// Human-readable label of the department category.
    pub fn display_name(&self) -> (r: &'static str)
        ensures
            r@ == self.spec_display_name(),
    {
        match self {
            DepartmentType::Pressure => "承压类",
            DepartmentType::Mechanical => "机电类",
            DepartmentType::Comprehensive => "综合类",
        }
    }

    /// Whether a department of this category takes part in a draw for the
    /// requested specialty: the combined category matches every specialty.
    pub open spec fn spec_satisfies(self, sp: SpecialtyType) -> bool {
        match (self, sp) {
            (DepartmentType::Comprehensive, _) => true,
            (DepartmentType::Pressure, SpecialtyType::Pressure) => true,
            (DepartmentType::Mechanical, SpecialtyType::Mechanical) => true,
            _ => false,
        }
    }

    /// Capability query used for every category-matches test.
    pub fn satisfies(&self, sp: SpecialtyType) -> (r: bool)
        ensures
            r == self.spec_satisfies(sp),
    {
        match (self, sp) {
            (DepartmentType::Comprehensive, _) => true,
            (DepartmentType::Pressure, SpecialtyType::Pressure) => true,
            (DepartmentType::Mechanical, SpecialtyType::Mechanical) => true,
            _ => false,
        }
    }

    /// Whether a pressure specialist must be drawn for this department.
    pub fn needs_pressure(&self) -> (r: bool)
        ensures
            r == self.spec_satisfies(SpecialtyType::Pressure),
    {
        matches!(self, DepartmentType::Pressure | DepartmentType::Comprehensive)
    }

    /// Whether a mechanical specialist must be drawn for this department.
    pub fn needs_mechanical(&self) -> (r: bool)
        ensures
            r == self.spec_satisfies(SpecialtyType::Mechanical),
    {
        matches!(self, DepartmentType::Mechanical | DepartmentType::Comprehensive)
    }
}

/// A department: the unit that is inspected, and the group an inspecting
/// specialist belongs to.
#[derive(Debug)]
pub struct Department {
    pub id: String,
    pub name: String,
    pub department_type: DepartmentType,
}

impl Clone for Department {
    fn clone(&self) -> (r: Self)
        ensures
            r == *self,
    {
        Department { id: self.id.clone(), name: self.name.clone(), department_type: self.department_type }
    }
}

impl Department {
    pub fn new(id: &str, name: &str, department_type: DepartmentType) -> (r: Self)
        ensures
            r.id@ == id@,
            r.name@ == name@,
            r.department_type == department_type,
    {
        Department { id: id.to_owned(), name: name.to_owned(), department_type }
    }
}

/// A quality specialist: the entity that a draw selects as counterpart.
#[derive(Debug)]
pub struct QualitySpecialist {
    pub id: String,
    pub name: String,
    /// The group the specialist belongs to.
    pub department_id: String,
    pub specialty: SpecialtyType,
}

impl Clone for QualitySpecialist {
    fn clone(&self) -> (r: Self)
        ensures
            r == *self,
    {
        QualitySpecialist {
            id: self.id.clone(),
            name: self.name.clone(),
            department_id: self.department_id.clone(),
            specialty: self.specialty,
        }
    }
}

impl QualitySpecialist {
    pub fn new(id: &str, name: &str, department_id: &str, specialty: SpecialtyType) -> (r: Self)
        ensures
            r.id@ == id@,
            r.name@ == name@,
            r.department_id@ == department_id@,
            r.specialty == specialty,
    {
        QualitySpecialist {
            id: id.to_owned(),
            name: name.to_owned(),
            department_id: department_id.to_owned(),
            specialty,
        }
    }
}

/// A record of one finished draw. Append-only: records are never edited and
/// are removed only by an explicit clear-all operation.
#[derive(Debug)]
pub struct DrawRecord {
    pub id: String,
    /// Unix timestamp (seconds) of the moment the draw was recorded.
    pub timestamp: i64,
    pub target_department_id: String,
    pub target_department_name: String,
    pub specialty_type: SpecialtyType,
    pub selected_specialist_id: String,
    pub selected_specialist_name: String,
    pub selected_from_department_id: String,
    pub selected_from_department_name: String,
}

impl Clone for DrawRecord {
    fn clone(&self) -> (r: Self)
        ensures
            r == *self,
    {
        DrawRecord {
            id: self.id.clone(),
            timestamp: self.timestamp,
            target_department_id: self.target_department_id.clone(),
            target_department_name: self.target_department_name.clone(),
            specialty_type: self.specialty_type,
            selected_specialist_id: self.selected_specialist_id.clone(),
            selected_specialist_name: self.selected_specialist_name.clone(),
            selected_from_department_id: self.selected_from_department_id.clone(),
            selected_from_department_name: self.selected_from_department_name.clone(),
        }
    }
}

/// Relies on `uuid::Uuid::new_v4` and its `Display` impl: the hyphenated
/// textual form of a UUID is exactly 36 characters of ASCII.
#[verifier::external_body]
fn fresh_record_id() -> (r: String)
    ensures
        r@.len() == 36,
{
    uuid::Uuid::new_v4().to_string()
}

/// Relies on `chrono::Local::now` and `DateTime::timestamp` for the current
/// Unix time; nothing is assumed of the value.
#[verifier::external_body]
fn now_timestamp() -> (r: i64) {
    chrono::Local::now().timestamp()
}

impl DrawRecord {
    /// Builds a record for a finished draw, stamping it with a fresh id and
    /// the current time.
    pub fn new(
        target_department_id: &str,
        target_department_name: &str,
        specialty_type: SpecialtyType,
        selected_specialist_id: &str,
        selected_specialist_name: &str,
        selected_from_department_id: &str,
        selected_from_department_name: &str,
    ) -> (r: Self)
        ensures
            r.id@.len() == 36,
            r.target_department_id@ == target_department_id@,
            r.target_department_name@ == target_department_name@,
            r.specialty_type == specialty_type,
            r.selected_specialist_id@ == selected_specialist_id@,
            r.selected_specialist_name@ == selected_specialist_name@,
            r.selected_from_department_id@ == selected_from_department_id@,
            r.selected_from_department_name@ == selected_from_department_name@,
    {
        DrawRecord {
            id: fresh_record_id(),
            timestamp: now_timestamp(),
            target_department_id: target_department_id.to_owned(),
            target_department_name: target_department_name.to_owned(),
            specialty_type,
            selected_specialist_id: selected_specialist_id.to_owned(),
            selected_specialist_name: selected_specialist_name.to_owned(),
            selected_from_department_id: selected_from_department_id.to_owned(),
            selected_from_department_name: selected_from_department_name.to_owned(),
        }
    }
}

/// The built-in list of departments used when no catalog has been stored yet.
pub fn default_departments() -> (r: Vec<Department>)
    ensures
        r@.len() == 10,
        r@[0].id@ == "nd"@ && r@[0].name@ == "宁东分院"@ && r@[0].department_type == DepartmentType::Comprehensive,
        r@[1].id@ == "szs"@ && r@[1].name@ == "石嘴山分院"@ && r@[1].department_type == DepartmentType::Comprehensive,
        r@[2].id@ == "wz"@ && r@[2].name@ == "吴忠分院"@ && r@[2].department_type == DepartmentType::Comprehensive,
        r@[3].id@ == "zw"@ && r@[3].name@ == "中卫分院"@ && r@[3].department_type == DepartmentType::Comprehensive,
        r@[4].id@ == "gy"@ && r@[4].name@ == "固原分院"@ && r@[4].department_type == DepartmentType::Comprehensive,
        r@[5].id@ == "cy1"@ && r@[5].name@ == "承压特种设备一部"@ && r@[5].department_type == DepartmentType::Pressure,
        r@[6].id@ == "cy2"@ && r@[6].name@ == "承压特种设备二部"@ && r@[6].department_type == DepartmentType::Pressure,
        r@[7].id@ == "zh"@ && r@[7].name@ == "综合检验检测站"@ && r@[7].department_type == DepartmentType::Pressure,
        r@[8].id@ == "jd1"@ && r@[8].name@ == "机电特种设备一部"@ && r@[8].department_type == DepartmentType::Mechanical,
        r@[9].id@ == "jd2"@ && r@[9].name@ == "机电特种设备二部"@ && r@[9].department_type == DepartmentType::Mechanical,
{
    let mut r: Vec<Department> = Vec::new();
    r.push(Department::new("nd", "宁东分院", DepartmentType::Comprehensive));
    r.push(Department::new("szs", "石嘴山分院", DepartmentType::Comprehensive));
    r.push(Department::new("wz", "吴忠分院", DepartmentType::Comprehensive));
    r.push(Department::new("zw", "中卫分院", DepartmentType::Comprehensive));
    r.push(Department::new("gy", "固原分院", DepartmentType::Comprehensive));
    r.push(Department::new("cy1", "承压特种设备一部", DepartmentType::Pressure));
    r.push(Department::new("cy2", "承压特种设备二部", DepartmentType::Pressure));
    r.push(Department::new("zh", "综合检验检测站", DepartmentType::Pressure));
    r.push(Department::new("jd1", "机电特种设备一部", DepartmentType::Mechanical));
    r.push(Department::new("jd2", "机电特种设备二部", DepartmentType::Mechanical));
    r
}

} // verus!
