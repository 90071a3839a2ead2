pub mod doctor;
