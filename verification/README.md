# surface

La surface d'observation de Prophet OS : ce que l'humain voit pendant que les agents
travaillent, réduit à ses décisions.

- `src/` est la bibliothèque vérifiée : le parcours d'une mission relu dans le journal, la
  comparaison ligne à ligne des fichiers changés, les contrôleurs de l'inspecteur, de la
  préparation, de l'espace de conversation et de l'arrêt d'urgence, la scène, l'ordre de ses
  courants et sa disposition, les missions qui prennent un ruban du champ, l'accent et la
  palette, l'heure et la date, ce que la surface dit en mots. Chaque fonction publique porte
  son contrat ; les lois qui lient plusieurs fonctions sont des fonctions de preuve publiques
  (`loi_…`).
- `app/` est le programme autour : arguments, réglages lus dans l'environnement et le fichier
  de configuration, conversions des réponses JSON des daemons, et ce qui se calcule en nombres
  flottants (volumes lisibles, budget, couleurs linéaires, géométrie des panneaux).
- `tests/` exerce la bibliothèque sur des valeurs concrètes.
