//! La surface d'observation de Prophet OS : ce que l'humain voit pendant que les agents
//! travaillent, réduit à ses décisions.

pub mod texte;
pub mod file_review;
pub mod missions;
pub mod scene;
pub mod champ;
pub mod mission_details;
pub mod supervision;
pub mod presence;
pub mod theme;
pub mod atelier;
pub mod gpu;
pub mod rendu;
pub mod fenetre;
pub mod disposition;
pub mod reel;
pub mod preparation;
pub mod arret;
